//! Git commit evidence: repository references, commit events, import
//! bookkeeping and discovery candidates. Reading a repository is left to
//! the caller, which hands over each commit's raw object as plain values.

use crate::connector::{
    acceptance_error_text, opt_view, CandidateView, ConnectorCapabilities, ConnectorCapability,
    ConnectorDescriptor, DiscoveredSourceCandidate, EventAcceptanceError, EventSink,
};
use crate::model::{
    nanos_per_second, CaptureTimestamp, ConnectorId, Event, EventId, EventKind, EventPayload,
    EventTimestamp, EventView, MediaType, Metadata, MetadataKey, MetadataValue, PayloadView,
    SchemaVersion, Source, SourceReference, SourceView, UnixTime,
};
use crate::sorted_map::{keys_ascending, pairs_view, TextMap};
use crate::text::{push_char, push_str, text_lt};
use vstd::prelude::*;

verus! {

/// The connector identifier of Git evidence.
pub open spec fn git_connector_id() -> Seq<char> {
    "schomburg.git"@
}

/// The event kind of a Git commit.
pub open spec fn commit_kind() -> Seq<char> {
    "git.commit"@
}

/// The deepest directory level below a scan root that discovery visits.
pub const MAX_DISCOVERY_DEPTH: usize = 8;

/// The lowercase hexadecimal digit of a value below sixteen.
pub open spec fn hex_digit(n: int) -> char {
    if n < 10 {
        ((n + 48) as u32) as char
    } else {
        ((n + 87) as u32) as char
    }
}

/// Bytes written as lowercase hexadecimal, two digits per byte, high digit
/// first.
pub open spec fn hex_text(bytes: Seq<u8>) -> Seq<char>
    decreases bytes.len(),
{
    if bytes.len() == 0 {
        Seq::empty()
    } else {
        hex_text(bytes.drop_last()).push(hex_digit(bytes.last() as int / 16)).push(
            hex_digit(bytes.last() as int % 16),
        )
    }
}

/// Returns the lowercase hexadecimal digit of a value below sixteen.
fn hex_char(n: u8) -> (r: char)
    requires
        n < 16,
    ensures
        r == hex_digit(n as int),
{
    let digits: [char; 16] = [
        '0',
        '1',
        '2',
        '3',
        '4',
        '5',
        '6',
        '7',
        '8',
        '9',
        'a',
        'b',
        'c',
        'd',
        'e',
        'f',
    ];
    let r = digits[n as usize];
    proof {
        assert(digits@ =~= seq!['0', '1', '2', '3', '4', '5', '6', '7', '8', '9', 'a', 'b', 'c', 'd', 'e', 'f']);
        let code: int = if n < 10 { n + 48 } else { n + 87 };
        vstd::utf8::char_u32_cast(r, code as u32);
    }
    r
}

/// Writes bytes as lowercase hexadecimal.
pub fn hex(bytes: &[u8]) -> (r: String)
    ensures
        r@ == hex_text(bytes@),
{
    let mut encoded = String::new();
    let mut i: usize = 0;
    while i < bytes.len()
        invariant
            i <= bytes@.len(),
            encoded@ == hex_text(bytes@.take(i as int)),
        decreases bytes.len() - i,
    {
        let byte = bytes[i];
        assert(bytes@.take(i + 1).drop_last() =~= bytes@.take(i as int));
        push_char(&mut encoded, hex_char(byte / 16));
        push_char(&mut encoded, hex_char(byte % 16));
        i = i + 1;
    }
    assert(bytes@.take(bytes@.len() as int) =~= bytes@);
    encoded
}

proof fn lemma_hex_digit_injective(a: int, b: int)
    requires
        0 <= a < 16,
        0 <= b < 16,
        hex_digit(a) == hex_digit(b),
    ensures
        a == b,
{
    let ca = if a < 10 {
        a + 48
    } else {
        a + 87
    };
    let cb = if b < 10 {
        b + 48
    } else {
        b + 87
    };
    vstd::utf8::char_u32_cast(hex_digit(a), ca as u32);
    vstd::utf8::char_u32_cast(hex_digit(b), cb as u32);
}

proof fn lemma_hex_text_len(bytes: Seq<u8>)
    ensures
        hex_text(bytes).len() == 2 * bytes.len(),
    decreases bytes.len(),
{
    if bytes.len() > 0 {
        lemma_hex_text_len(bytes.drop_last());
    }
}

/// Distinct byte strings have distinct hexadecimal texts.
pub proof fn lemma_hex_text_injective(a: Seq<u8>, b: Seq<u8>)
    requires
        hex_text(a) == hex_text(b),
    ensures
        a == b,
    decreases a.len(),
{
    lemma_hex_text_len(a);
    lemma_hex_text_len(b);
    if a.len() > 0 {
        let ta = hex_text(a);
        let tb = hex_text(b);
        let n = ta.len();
        assert(ta[n - 1] == hex_digit(a.last() as int % 16));
        assert(tb[n - 1] == hex_digit(b.last() as int % 16));
        assert(ta[n - 2] == hex_digit(a.last() as int / 16));
        assert(tb[n - 2] == hex_digit(b.last() as int / 16));
        lemma_hex_digit_injective(a.last() as int % 16, b.last() as int % 16);
        lemma_hex_digit_injective(a.last() as int / 16, b.last() as int / 16);
        assert(ta.drop_last().drop_last() =~= hex_text(a.drop_last()));
        assert(tb.drop_last().drop_last() =~= hex_text(b.drop_last()));
        lemma_hex_text_injective(a.drop_last(), b.drop_last());
        assert(a =~= a.drop_last().push(a.last()));
        assert(b =~= b.drop_last().push(b.last()));
    } else {
        assert(a =~= b);
    }
}

/// The stable reference of a repository, from the bytes of its canonical
/// Git directory path.
pub open spec fn repository_reference_text(git_dir: Seq<u8>) -> Seq<char> {
    "git-dir-hex:"@ + hex_text(git_dir)
}

/// Returns the stable reference of a repository from the bytes of its
/// canonical Git directory path.
pub fn repository_reference(git_dir: &[u8]) -> (r: String)
    ensures
        r@ == repository_reference_text(git_dir@),
{
    let mut s = String::new();
    push_str(&mut s, "git-dir-hex:");
    let h = hex(git_dir);
    push_str(&mut s, h.as_str());
    s
}

/// The event identifier of a commit in a repository.
pub open spec fn commit_event_id(reference: Seq<char>, commit_hash: Seq<char>) -> Seq<char> {
    "git:commit:"@ + reference + ":"@ + commit_hash
}

/// The same commit in repositories at distinct Git directories gets
/// distinct event identifiers.
pub proof fn law_distinct_repositories_distinct_event_ids(
    first_git_dir: Seq<u8>,
    second_git_dir: Seq<u8>,
    commit_hash: Seq<char>,
)
    requires
        first_git_dir != second_git_dir,
    ensures
        commit_event_id(repository_reference_text(first_git_dir), commit_hash) != commit_event_id(
            repository_reference_text(second_git_dir),
            commit_hash,
        ),
{
    let ra = repository_reference_text(first_git_dir);
    let rb = repository_reference_text(second_git_dir);
    let a = commit_event_id(ra, commit_hash);
    let b = commit_event_id(rb, commit_hash);
    if a == b {
        let head = "git:commit:"@;
        let tail = ":"@ + commit_hash;
        assert(a =~= head + (ra + tail));
        assert(b =~= head + (rb + tail));
        assert(a.len() == b.len());
        assert(ra.len() == rb.len());
        assert forall|i: int| 0 <= i < ra.len() implies ra[i] == rb[i] by {
            assert(a[head.len() + i] == ra[i]);
            assert(b[head.len() + i] == rb[i]);
        }
        assert(ra =~= rb);
        let p = "git-dir-hex:"@;
        let ha = hex_text(first_git_dir);
        let hb = hex_text(second_git_dir);
        assert forall|i: int| 0 <= i < ha.len() implies ha[i] == hb[i] by {
            assert(ra[p.len() + i] == ha[i]);
            assert(rb[p.len() + i] == hb[i]);
        }
        assert(ha.len() == hb.len());
        assert(ha =~= hb);
        lemma_hex_text_injective(first_git_dir, second_git_dir);
    }
}

/// The first twelve characters of a commit hash, or all of it if shorter.
pub open spec fn short_hash_text(hash: Seq<char>) -> Seq<char> {
    if hash.len() <= 12 {
        hash
    } else {
        hash.take(12)
    }
}

/// Returns the first twelve characters of a commit hash.
pub fn short_hash(hash: &str) -> (r: String)
    ensures
        r@ == short_hash_text(hash@),
{
    let chars = crate::text::chars_of(hash);
    let end: usize = if chars.len() <= 12 {
        chars.len()
    } else {
        12
    };
    let r = crate::text::string_from_chars(&chars, 0, end);
    proof {
        if hash@.len() <= 12 {
            assert(hash@.subrange(0, end as int) =~= hash@);
        } else {
            assert(hash@.subrange(0, end as int) =~= hash@.take(12));
        }
    }
    r
}

/// Converts the seconds of a Git signature time, counted from the Unix
/// epoch, to a time.
pub fn system_time_from_git_seconds(seconds: i64) -> (r: UnixTime)
    ensures
        r@ == seconds * nanos_per_second(),
{
    UnixTime::from_unix_seconds(seconds)
}

/// Returns the descriptor of the Git connector: it imports commits.
pub fn git_descriptor() -> (r: ConnectorDescriptor)
    ensures
        r@.id == git_connector_id(),
        r@.capabilities == seq!["import.commits"@],
{
    let mut capabilities: Vec<ConnectorCapability> = Vec::new();
    capabilities.push(ConnectorCapability::new("import.commits"));
    let declared = ConnectorCapabilities::new(capabilities);
    proof {
        let names = declared@;
        let x = "import.commits"@;
        assert(capabilities@[0]@ == x);
        assert(names.contains(x));
        assert forall|i: int| 0 <= i < names.len() implies names[i] == x by {
            assert(names.contains(names[i]));
        }
        if names.len() >= 2 {
            assert(text_lt(names[0], names[1]));
            crate::text::lemma_text_lt_irreflexive(x);
        }
        assert(names =~= seq![x]);
    }
    ConnectorDescriptor::new(ConnectorId::new("schomburg.git"), declared)
}

/// The metadata of a commit event, in ascending key order.
pub open spec fn commit_metadata_view(
    reference: Seq<char>,
    display_name: Seq<char>,
    commit_hash: Seq<char>,
) -> Seq<(Seq<char>, Seq<char>)> {
    seq![
        ("git.commit_hash"@, commit_hash),
        ("git.payload_format"@, "raw-commit-object"@),
        ("git.repository_display_name"@, display_name),
        ("git.repository_reference"@, reference),
    ]
}

/// Returns the metadata of a commit event.
fn commit_metadata(reference: &str, display_name: &str, commit_hash: &str) -> (r: Metadata)
    ensures
        r@ == commit_metadata_view(reference@, display_name@, commit_hash@),
{
    let mut pairs: Vec<(String, String)> = Vec::new();
    pairs.push(("git.commit_hash".to_owned(), commit_hash.to_owned()));
    pairs.push(("git.payload_format".to_owned(), "raw-commit-object".to_owned()));
    pairs.push(("git.repository_display_name".to_owned(), display_name.to_owned()));
    pairs.push(("git.repository_reference".to_owned(), reference.to_owned()));
    let ghost keys = seq![
        "git.commit_hash"@,
        "git.payload_format"@,
        "git.repository_display_name"@,
        "git.repository_reference"@,
    ];
    proof {
        reveal_strlit("git.commit_hash");
        reveal_strlit("git.payload_format");
        reveal_strlit("git.repository_display_name");
        reveal_strlit("git.repository_reference");
        crate::text::lemma_text_lt_at(keys[0], keys[1], 4);
        crate::text::lemma_text_lt_at(keys[1], keys[2], 4);
        crate::text::lemma_text_lt_at(keys[2], keys[3], 15);
        crate::text::lemma_text_lt_transitive(keys[0], keys[1], keys[2]);
        crate::text::lemma_text_lt_transitive(keys[1], keys[2], keys[3]);
        crate::text::lemma_text_lt_transitive(keys[0], keys[2], keys[3]);
        assert(pairs_view(pairs@) =~= commit_metadata_view(reference@, display_name@, commit_hash@));
        assert(keys_ascending(pairs_view(pairs@)));
    }
    Metadata::from_text_map(TextMap::from_ascending_pairs(pairs))
}

/// The raw object of one commit, as read from a repository.
pub struct RawCommit {
    /// The commit's hash in hexadecimal.
    pub hash: String,
    /// Whether the object database holds the object as a commit.
    pub is_commit: bool,
    /// The committer's time, in seconds from the Unix epoch.
    pub committer_seconds: i64,
    /// The raw bytes of the commit object.
    pub data: Vec<u8>,
    /// When the commit was read.
    pub captured_at: UnixTime,
}

/// The event that preserves a commit of a repository.
pub open spec fn commit_event_view(
    reference: Seq<char>,
    display_name: Seq<char>,
    commit_hash: Seq<char>,
    committer_seconds: i64,
    data: Seq<u8>,
    captured_at: int,
) -> EventView {
    EventView {
        id: commit_event_id(reference, commit_hash),
        occurred_at: committer_seconds * nanos_per_second(),
        source: SourceView { connector_id: git_connector_id(), reference: commit_hash },
        kind: commit_kind(),
        payload: PayloadView {
            bytes: data,
            media_type: Some("application/vnd.git.commit"@),
            metadata: commit_metadata_view(reference, display_name, commit_hash),
        },
        captured_at,
        schema_version: "1"@,
    }
}

/// Errors from local Git repository opening or commit import.
#[derive(Debug)]
pub enum GitConnectorError {
    /// The repository path does not exist.
    PathDoesNotExist { path: String },
    /// The path exists but does not resolve to a Git repository.
    NotRepository { path: String },
    /// Git or local filesystem work failed.
    Git { operation: String, message: String },
    /// A commit could not be represented as factual evidence.
    MalformedCommit { commit_hash: String, detail: String },
    /// The engine-owned sink rejected a produced event.
    EventAcceptance(EventAcceptanceError),
}

/// The message that describes a Git connector error.
pub open spec fn git_error_text(e: GitConnectorError) -> Seq<char> {
    match e {
        GitConnectorError::PathDoesNotExist { path } => "repository path does not exist: "@ + path@,
        GitConnectorError::NotRepository { path } => "not a Git repository: "@ + path@,
        GitConnectorError::Git { operation, message } => "Git failure during "@ + operation@
            + ": "@ + message@,
        GitConnectorError::MalformedCommit { commit_hash, detail } => "malformed commit "@
            + commit_hash@ + ": "@ + detail@,
        GitConnectorError::EventAcceptance(error) => "event acceptance failed: "@
            + acceptance_error_text(error),
    }
}

impl GitConnectorError {
    /// Describes the error for a person.
    pub fn message(&self) -> (r: String)
        ensures
            r@ == git_error_text(*self),
    {
        let mut s = String::new();
        match self {
            GitConnectorError::PathDoesNotExist { path } => {
                push_str(&mut s, "repository path does not exist: ");
                push_str(&mut s, path.as_str());
            },
            GitConnectorError::NotRepository { path } => {
                push_str(&mut s, "not a Git repository: ");
                push_str(&mut s, path.as_str());
            },
            GitConnectorError::Git { operation, message } => {
                push_str(&mut s, "Git failure during ");
                push_str(&mut s, operation.as_str());
                push_str(&mut s, ": ");
                push_str(&mut s, message.as_str());
            },
            GitConnectorError::MalformedCommit { commit_hash, detail } => {
                push_str(&mut s, "malformed commit ");
                push_str(&mut s, commit_hash.as_str());
                push_str(&mut s, ": ");
                push_str(&mut s, detail.as_str());
            },
            GitConnectorError::EventAcceptance(error) => {
                push_str(&mut s, "event acceptance failed: ");
                error.write_message(&mut s);
            },
        }
        s
    }
}

/// Builds the event that preserves one commit of a repository, refusing an
/// object that is not a commit.
pub fn event_for_commit(reference: &str, display_name: &str, commit: RawCommit) -> (r: Result<
    Event,
    GitConnectorError,
>)
    ensures
        commit.is_commit ==> (r matches Ok(e) && e@ == commit_event_view(
            reference@,
            display_name@,
            commit.hash@,
            commit.committer_seconds,
            commit.data@,
            commit.captured_at@,
        )),
        !commit.is_commit ==> (r matches Err(GitConnectorError::MalformedCommit { commit_hash, detail })
            && commit_hash@ == commit.hash@ && detail@ == "object is not a commit"@),
{
    if !commit.is_commit {
        return Err(
            GitConnectorError::MalformedCommit {
                commit_hash: commit.hash,
                detail: "object is not a commit".to_owned(),
            },
        );
    }
    let occurred_at = system_time_from_git_seconds(commit.committer_seconds);
    let metadata = commit_metadata(reference, display_name, commit.hash.as_str());
    let mut id = String::new();
    push_str(&mut id, "git:commit:");
    push_str(&mut id, reference);
    push_str(&mut id, ":");
    push_str(&mut id, commit.hash.as_str());
    let event = Event::new(
        EventId::from_string(id),
        EventTimestamp::new(occurred_at),
        Source::new(ConnectorId::new("schomburg.git"), SourceReference::new(commit.hash.as_str())),
        EventKind::new("git.commit"),
        EventPayload::new(
            commit.data,
            Some(MediaType::new("application/vnd.git.commit")),
            metadata,
        ),
        CaptureTimestamp::new(commit.captured_at),
        SchemaVersion::new("1"),
    );
    Ok(event)
}

/// Counts from one Git import attempt.
#[derive(Clone, Copy, Debug, Default, Eq, PartialEq)]
pub struct GitImportReport {
    imported: usize,
    duplicates: usize,
    rejected: usize,
    failed: usize,
}

/// The counts of an import report.
pub struct ImportCounts {
    pub imported: nat,
    pub duplicates: nat,
    pub rejected: nat,
    pub failed: nat,
}

impl View for GitImportReport {
    type V = ImportCounts;

    closed spec fn view(&self) -> ImportCounts {
        ImportCounts {
            imported: self.imported as nat,
            duplicates: self.duplicates as nat,
            rejected: self.rejected as nat,
            failed: self.failed as nat,
        }
    }
}

/// Whether an import report can count one more of anything.
pub open spec fn report_has_room(c: ImportCounts) -> bool {
    &&& c.imported < usize::MAX
    &&& c.duplicates < usize::MAX
    &&& c.rejected < usize::MAX
    &&& c.failed < usize::MAX
}

impl GitImportReport {
    /// An empty report.
    pub fn new() -> (r: Self)
        ensures
            r@ == (ImportCounts { imported: 0, duplicates: 0, rejected: 0, failed: 0 }),
    {
        GitImportReport { imported: 0, duplicates: 0, rejected: 0, failed: 0 }
    }

    /// Returns the number of events accepted by the sink.
    pub fn imported(&self) -> (r: usize)
        ensures
            r == self@.imported,
    {
        self.imported
    }

    /// Returns the number of events already preserved by the sink.
    pub fn duplicates(&self) -> (r: usize)
        ensures
            r == self@.duplicates,
    {
        self.duplicates
    }

    /// Returns the number of events rejected by the sink.
    pub fn rejected(&self) -> (r: usize)
        ensures
            r == self@.rejected,
    {
        self.rejected
    }

    /// Returns the number of commit-processing failures.
    pub fn failed(&self) -> (r: usize)
        ensures
            r == self@.failed,
    {
        self.failed
    }

    /// Whether the report can count one more of anything.
    pub fn has_room(&self) -> (r: bool)
        ensures
            r == report_has_room(self@),
    {
        self.imported < usize::MAX && self.duplicates < usize::MAX && self.rejected < usize::MAX
            && self.failed < usize::MAX
    }

    /// Counts a commit that could not be read or made into an event.
    pub fn record_failure(&mut self)
        requires
            old(self)@.failed < usize::MAX,
        ensures
            final(self)@ == (ImportCounts { failed: old(self)@.failed + 1, ..old(self)@ }),
    {
        self.failed = self.failed + 1;
    }

    /// Counts what the sink answered for one commit's event: accepted,
    /// already preserved, or rejected. A rejection ends the import with an
    /// error.
    pub fn record_acceptance(&mut self, outcome: Result<(), EventAcceptanceError>) -> (r: Result<
        (),
        GitConnectorError,
    >)
        requires
            report_has_room(old(self)@),
        ensures
            match outcome {
                Ok(()) => r is Ok && final(self)@ == (ImportCounts {
                    imported: old(self)@.imported + 1,
                    ..old(self)@
                }),
                Err(EventAcceptanceError::DuplicateEventId(_)) => r is Ok && final(self)@ == (
                ImportCounts { duplicates: old(self)@.duplicates + 1, ..old(self)@ }),
                Err(e) => r == Err::<(), GitConnectorError>(GitConnectorError::EventAcceptance(e))
                    && final(self)@ == (ImportCounts {
                    rejected: old(self)@.rejected + 1,
                    ..old(self)@
                }),
            },
    {
        match outcome {
            Ok(()) => {
                self.imported = self.imported + 1;
                Ok(())
            },
            Err(EventAcceptanceError::DuplicateEventId(_)) => {
                self.duplicates = self.duplicates + 1;
                Ok(())
            },
            Err(e) => {
                self.rejected = self.rejected + 1;
                Err(GitConnectorError::EventAcceptance(e))
            },
        }
    }
}

/// The number of commits an import report has counted.
pub open spec fn counted(c: ImportCounts) -> nat {
    c.imported + c.duplicates + c.rejected + c.failed
}

/// Imports one commit read from a repository: builds its event, hands it to
/// the sink and counts the outcome. A commit that could not be read, or is
/// not a commit, counts as failed; a sink rejection counts as rejected.
/// Each call counts exactly one commit, and it returns an error exactly when
/// it counted a failure or a rejection. A readable commit's event, built from
/// this repository's reference and display name, is what the sink receives.
pub fn import_commit<S: EventSink>(
    report: &mut GitImportReport,
    reference: &str,
    display_name: &str,
    commit: Result<RawCommit, GitConnectorError>,
    sink: &mut S,
) -> (r: Result<(), GitConnectorError>)
    requires
        report_has_room(old(report)@),
    ensures
        counted(final(report)@) == counted(old(report)@) + 1,
        final(report)@.failed == old(report)@.failed + (if commit is Err || (commit matches Ok(c)
            && !c.is_commit) {
            1int
        } else {
            0
        }),
        r is Err <==> (final(report)@.failed == old(report)@.failed + 1 || final(report)@.rejected
            == old(report)@.rejected + 1),
        final(report)@.imported >= old(report)@.imported,
        final(report)@.duplicates >= old(report)@.duplicates,
        final(report)@.rejected >= old(report)@.rejected,
        commit matches Err(e) ==> r == Err::<(), GitConnectorError>(e),
        old(sink).obeys_sink_laws() ==> final(sink).obeys_sink_laws() && final(sink).offered() == match commit {
            Ok(c) => if c.is_commit {
                old(sink).offered().push(
                    commit_event_view(
                        reference@,
                        display_name@,
                        c.hash@,
                        c.committer_seconds,
                        c.data@,
                        c.captured_at@,
                    ),
                )
            } else {
                old(sink).offered()
            },
            Err(_) => old(sink).offered(),
        },
        old(sink).obeys_sink_laws() ==> final(sink).answered().len() - old(sink).answered().len()
            == final(sink).offered().len() - old(sink).offered().len(),
        old(sink).obeys_sink_laws() && final(sink).answered().len() == old(sink).answered().len()
            + 1 ==> final(sink).answered() == old(sink).answered().push(final(sink).answered().last())
            && final(report)@.failed == old(report)@.failed && match final(sink).answered().last() {
            Ok(()) => {
                &&& r is Ok
                &&& final(report)@.imported == old(report)@.imported + 1
                &&& final(report)@.duplicates == old(report)@.duplicates
                &&& final(report)@.rejected == old(report)@.rejected
            },
            Err(EventAcceptanceError::DuplicateEventId(_)) => {
                &&& r is Ok
                &&& final(report)@.duplicates == old(report)@.duplicates + 1
                &&& final(report)@.imported == old(report)@.imported
                &&& final(report)@.rejected == old(report)@.rejected
            },
            Err(e) => {
                &&& r == Err::<(), GitConnectorError>(GitConnectorError::EventAcceptance(e))
                &&& final(report)@.rejected == old(report)@.rejected + 1
                &&& final(report)@.imported == old(report)@.imported
                &&& final(report)@.duplicates == old(report)@.duplicates
            },
        },
{
    let raw = match commit {
        Ok(raw) => raw,
        Err(e) => {
            report.record_failure();
            return Err(e);
        },
    };
    let event = match event_for_commit(reference, display_name, raw) {
        Ok(event) => event,
        Err(e) => {
            report.record_failure();
            return Err(e);
        },
    };
    let outcome = sink.accept(event);
    report.record_acceptance(outcome)
}

/// Whether discovery skips a directory of this name: Git's own directory and
/// build, dependency and Schomburg directories.
pub open spec fn excluded_directory(name: Seq<char>) -> bool {
    ||| name == ".git"@
    ||| name == "target"@
    ||| name == "node_modules"@
    ||| name == ".schomburg"@
    ||| name == ".build"@
    ||| name == "build"@
    ||| name == "dist"@
}

/// Whether discovery skips a directory of this name.
pub fn is_excluded_directory(name: &str) -> (r: bool)
    ensures
        r == excluded_directory(name@),
{
    crate::text::str_eq(name, ".git") || crate::text::str_eq(name, "target")
        || crate::text::str_eq(name, "node_modules") || crate::text::str_eq(name, ".schomburg")
        || crate::text::str_eq(name, ".build") || crate::text::str_eq(name, "build")
        || crate::text::str_eq(name, "dist")
}

/// The deepest directory level that discovery scans below a root.
pub open spec fn max_discovery_depth() -> int {
    8
}

/// What discovery does with one directory entry.
#[derive(Clone, Copy, Debug, Eq, PartialEq, Structural)]
pub enum DiscoveryStep {
    /// The directory lies deeper than discovery scans: stop there.
    Stop,
    /// The entry is a symbolic link, not a directory, or an excluded
    /// directory: pass over it.
    Skip,
    /// The directory holds a Git marker: it is a repository candidate.
    Repository,
    /// Any other directory: scan inside it.
    Descend,
}

/// Whether a directory at `depth` below a root lies deeper than discovery
/// scans.
pub fn beyond_discovery_depth(depth: usize) -> (r: bool)
    ensures
        r == (depth > max_discovery_depth()),
{
    depth > 8
}

/// Decides what discovery does with an entry of a directory at `depth`
/// below a root: nothing deeper than eight levels is scanned; symbolic
/// links, entries that are not directories and excluded directories are
/// passed over; a directory with a Git marker is a repository, and any
/// other directory is scanned in turn.
pub fn discovery_step(depth: usize, is_symlink: bool, is_dir: bool, name: &str, has_git_marker: bool) -> (r:
    DiscoveryStep)
    ensures
        depth > max_discovery_depth() ==> r is Stop,
        depth <= max_discovery_depth() && (is_symlink || !is_dir || excluded_directory(name@)) ==> r is Skip,
        depth <= max_discovery_depth() && !(is_symlink || !is_dir || excluded_directory(name@)) ==> r == if has_git_marker {
            DiscoveryStep::Repository
        } else {
            DiscoveryStep::Descend
        },
{
    if beyond_discovery_depth(depth) {
        DiscoveryStep::Stop
    } else if is_symlink || !is_dir || is_excluded_directory(name) {
        DiscoveryStep::Skip
    } else if has_git_marker {
        DiscoveryStep::Repository
    } else {
        DiscoveryStep::Descend
    }
}

/// The discovery candidate for a repository found at `path`, whose Git
/// directory has reference `identity`.
pub open spec fn git_candidate_view(
    identity: Seq<char>,
    display_name: Seq<char>,
    path: Seq<char>,
) -> CandidateView {
    CandidateView {
        connector_id: git_connector_id(),
        source_identity: identity,
        display_name,
        local_reference: Some(path),
        metadata: seq![("git.repository_reference"@, identity)],
        configuration: path,
    }
}

/// Returns the discovery candidate for a repository found at `path`.
pub fn git_candidate(identity: &str, display_name: &str, path: &str) -> (r: DiscoveredSourceCandidate)
    ensures
        r@ == git_candidate_view(identity@, display_name@, path@),
{
    let mut pairs: Vec<(String, String)> = Vec::new();
    pairs.push(("git.repository_reference".to_owned(), identity.to_owned()));
    assert(pairs_view(pairs@) =~= seq![("git.repository_reference"@, identity@)]);
    DiscoveredSourceCandidate::new(
        ConnectorId::new("schomburg.git"),
        identity,
        display_name,
        Some(path.to_owned()),
        TextMap::from_ascending_pairs(pairs),
        path,
    )
}

/// The source identities of candidates.
pub open spec fn candidate_identities(c: Seq<DiscoveredSourceCandidate>) -> Seq<Seq<char>> {
    c.map_values(|x: DiscoveredSourceCandidate| x@.source_identity)
}

/// Whether candidates are in strictly ascending order of source identity.
pub open spec fn identities_ascending(c: Seq<DiscoveredSourceCandidate>) -> bool {
    forall|i: int, j: int|
        0 <= i < j < c.len() ==> text_lt(#[trigger] c[i]@.source_identity, #[trigger] c[j]@.source_identity)
}

/// Adds a candidate unless one with the same source identity is already
/// present, keeping candidates ordered by identity; the first candidate found
/// for an identity is kept. Returns whether it was added.
pub fn add_candidate(
    candidates: &mut Vec<DiscoveredSourceCandidate>,
    candidate: DiscoveredSourceCandidate,
) -> (r: bool)
    requires
        identities_ascending(old(candidates)@),
    ensures
        identities_ascending(final(candidates)@),
        r == !candidate_identities(old(candidates)@).contains(candidate@.source_identity),
        !r ==> final(candidates)@ == old(candidates)@,
        r ==> exists|p: int|
            0 <= p <= old(candidates)@.len() && final(candidates)@ == old(candidates)@.insert(
                p,
                candidate,
            ),
{
    let ghost before = candidates@;
    let target = crate::text::chars_of(candidate.source_identity());
    let mut p: usize = 0;
    while p < candidates.len()
        invariant
            p <= candidates@.len(),
            candidates@ == before,
            target@ == candidate@.source_identity,
            identities_ascending(before),
            forall|j: int| 0 <= j < p ==> text_lt(#[trigger] before[j]@.source_identity, target@),
        ensures
            p <= candidates@.len(),
            candidates@ == before,
            forall|j: int| 0 <= j < p ==> text_lt(#[trigger] before[j]@.source_identity, target@),
            p < candidates@.len() ==> !text_lt(before[p as int]@.source_identity, target@),
        decreases candidates.len() - p,
    {
        let current = crate::text::chars_of(candidates[p as usize].source_identity());
        if !crate::text::chars_lt(&current, &target) {
            break;
        }
        p = p + 1;
    }
    let ghost k = target@;
    if p < candidates.len() {
        if crate::text::str_eq(candidates[p as usize].source_identity(), candidate.source_identity()) {
            proof {
                assert(candidate_identities(before)[p as int] == k);
            }
            return false;
        }
        proof {
            crate::text::lemma_text_lt_total(before[p as int]@.source_identity, k);
        }
    }
    proof {
        assert forall|j: int| 0 <= j < before.len() implies before[j]@.source_identity != k by {
            if j < p {
                crate::text::lemma_text_lt_irreflexive(k);
            } else {
                if j > p {
                    crate::text::lemma_text_lt_transitive(k, before[p as int]@.source_identity, before[j]@.source_identity);
                }
                crate::text::lemma_text_lt_irreflexive(k);
            }
        }
        if candidate_identities(before).contains(k) {
            let j = choose|j: int| 0 <= j < before.len() && candidate_identities(before)[j] == k;
            assert(before[j]@.source_identity == k);
        }
    }
    candidates.insert(p, candidate);
    proof {
        let after = candidates@;
        assert(after == before.insert(p as int, after[p as int]));
        assert forall|i: int, j: int| 0 <= i < j < after.len() implies text_lt(
            #[trigger] after[i]@.source_identity,
            #[trigger] after[j]@.source_identity,
        ) by {
            if j < p {
            } else if j == p {
            } else if i < p {
                if j - 1 > p {
                    crate::text::lemma_text_lt_transitive(k, before[p as int]@.source_identity, before[j - 1]@.source_identity);
                }
                crate::text::lemma_text_lt_transitive(before[i]@.source_identity, k, before[j - 1]@.source_identity);
            } else if i == p {
                if j - 1 > p {
                    crate::text::lemma_text_lt_transitive(k, before[p as int]@.source_identity, before[j - 1]@.source_identity);
                }
            } else {
            }
        }
    }
    true
}

} // verus!
