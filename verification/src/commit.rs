//! Reading a preserved Git commit event back into its factual fields, and
//! the factual presentation of such events.

use crate::connector::{
    opt_view, CompactPresentation, CompactView, DetailedPresentation, DetailedView, EventPresenter,
    FieldView, PresentationError, PresentationField, RawEvidence, RawEvidenceView, fields_view,
};
use crate::git::{commit_kind, git_connector_id, short_hash, short_hash_text};
use crate::model::{media_type_view, ConnectorId, Event, EventView, Metadata};
use crate::scan::{
    chars_to_string, has_prefix, last_occurrence, lines, newline_pieces, parse_i64,
    parse_i64_text, slice_chars, split_newlines, split_white_space, starts_with, strip_cr,
    ws_tokens,
};
use crate::sorted_map::{has_key, keys_ascending, lemma_ascending_unique, maps_to};
use crate::text::{
    chars_of, find_from, first_occurrence_from, occurs_at, push_signed_decimal, push_str, rfind,
    signed_decimal_text,
};
use vstd::prelude::*;

verus! {

/// The lines of `v`, as `str::lines` gives them.
pub fn text_lines(v: &Vec<char>) -> (r: Vec<Vec<char>>)
    ensures
        r@.len() == lines(v@).len(),
        forall|i: int| 0 <= i < r@.len() ==> (#[trigger] r@[i])@ == lines(v@)[i],
{
    reveal(lines);
    if v.len() == 0 {
        return Vec::new();
    }
    let pieces = split_newlines(v);
    let ghost p = newline_pieces(v@);
    proof {
        crate::scan::lemma_newline_pieces_nonempty(v@);
    }
    let ends_with_newline = v[v.len() - 1] == '\n';
    let mut out: Vec<Vec<char>> = Vec::new();
    let mut i: usize = 0;
    while i < pieces.len() - 1
        invariant
            pieces@.len() >= 1,
            pieces@.len() == p.len(),
            p == newline_pieces(v@),
            forall|k: int| 0 <= k < pieces@.len() ==> (#[trigger] pieces@[k])@ == p[k],
            i <= pieces@.len() - 1,
            out@.len() == i,
            forall|k: int| 0 <= k < i ==> (#[trigger] out@[k])@ == strip_cr(p[k]),
        decreases pieces.len() - i,
    {
        let piece = &pieces[i];
        let line = if piece.len() > 0 && piece[piece.len() - 1] == '\r' {
            slice_chars(piece, 0, piece.len() - 1)
        } else {
            slice_chars(piece, 0, piece.len())
        };
        proof {
            assert(piece@.subrange(0, piece@.len() as int) =~= piece@);
            if piece@.len() > 0 {
                assert(piece@.subrange(0, piece@.len() - 1) =~= piece@.drop_last());
            }
        }
        out.push(line);
        i = i + 1;
    }
    if !ends_with_newline {
        let last = slice_chars(&pieces[pieces.len() - 1], 0, pieces[pieces.len() - 1].len());
        proof {
            let lp = pieces@[pieces@.len() - 1]@;
            assert(lp.subrange(0, lp.len() as int) =~= lp);
        }
        out.push(last);
        proof {
            assert(v@.last() != '\n');
            let expected = p.drop_last().map_values(|l: Seq<char>| strip_cr(l)).push(p.last());
            assert forall|k: int| 0 <= k < out@.len() implies (#[trigger] out@[k])@ == expected[k] by {
            }
        }
    } else {
        proof {
            assert(v@.last() == '\n');
        }
    }
    out
}

/// Why the raw text of a commit could not be read.
pub enum ParseFailure {
    /// The payload is not in the expected format; the detail says how.
    Malformed(Seq<char>),
    /// A factual field is absent; it is named.
    Missing(Seq<char>),
    /// A timestamp could not be read; the detail says which.
    InvalidTimestamp(Seq<char>),
}

/// Whether a presentation error reports a parse failure.
pub open spec fn reports(e: PresentationError, f: ParseFailure) -> bool {
    match f {
        ParseFailure::Malformed(d) => e matches PresentationError::MalformedPayload { detail }
            && detail@ == d,
        ParseFailure::Missing(d) => e matches PresentationError::MissingFactualField { field }
            && field@ == d,
        ParseFailure::InvalidTimestamp(d) => e matches PresentationError::InvalidTimestamp { detail }
            && detail@ == d,
    }
}

/// The identity of a commit's author or committer.
pub struct IdentityView {
    pub name: Seq<char>,
    pub email: Seq<char>,
    pub seconds: i64,
    pub timezone: Seq<char>,
}

/// An identity line's value read as `name <email> seconds timezone`: the
/// name runs to the last ` <`, the email to the first `> ` after it, and
/// exactly two white-space-separated tokens follow, the first an `i64`.
#[verifier::opaque]
pub open spec fn identity_from(value: Seq<char>, field: Seq<char>) -> Result<IdentityView, ParseFailure> {
    match last_occurrence(value, " <"@) {
        None => Err(
            ParseFailure::Malformed("raw Git commit "@ + field + " is missing a name or email"@),
        ),
        Some(i) => {
            let suffix = value.skip(i + 2);
            match first_occurrence_from(suffix, "> "@, 0) {
                None => Err(
                    ParseFailure::Malformed(
                        "raw Git commit "@ + field + " is missing timestamp data"@,
                    ),
                ),
                Some(j) => {
                    let tokens = ws_tokens(suffix.skip(j + 2));
                    if tokens.len() == 0 {
                        Err(ParseFailure::Missing("raw Git commit timestamp"@))
                    } else {
                        match parse_i64_text(tokens[0]) {
                            None => Err(
                                ParseFailure::InvalidTimestamp(
                                    "raw Git commit "@ + field + " timestamp is not an integer"@,
                                ),
                            ),
                            Some(seconds) => if tokens.len() == 1 {
                                Err(ParseFailure::Missing("raw Git commit timezone"@))
                            } else if tokens.len() > 2 {
                                Err(
                                    ParseFailure::Malformed(
                                        "raw Git commit "@ + field
                                            + " has trailing timestamp data"@,
                                    ),
                                )
                            } else {
                                Ok(
                                    IdentityView {
                                        name: value.take(i),
                                        email: suffix.take(j),
                                        seconds,
                                        timezone: tokens[1],
                                    },
                                )
                            },
                        }
                    }
                },
            }
        },
    }
}

/// The facts that the header lines of a commit give.
pub struct HeaderFacts {
    pub parents: Seq<Seq<char>>,
    pub author: Option<IdentityView>,
    pub committer: Option<IdentityView>,
}

/// Reads one header line: a `parent ` line adds a parent hash, an `author `
/// or `committer ` line sets that identity, anything else is ignored.
#[verifier::opaque]
pub open spec fn header_step(facts: HeaderFacts, line: Seq<char>) -> Result<HeaderFacts, ParseFailure> {
    if starts_with(line, "parent "@) {
        Ok(
            HeaderFacts {
                parents: facts.parents.push(line.skip(7)),
                author: facts.author,
                committer: facts.committer,
            },
        )
    } else if starts_with(line, "author "@) {
        match identity_from(line.skip(7), "author"@) {
            Ok(identity) => Ok(
                HeaderFacts {
                    parents: facts.parents,
                    author: Some(identity),
                    committer: facts.committer,
                },
            ),
            Err(f) => Err(f),
        }
    } else if starts_with(line, "committer "@) {
        match identity_from(line.skip(10), "committer"@) {
            Ok(identity) => Ok(
                HeaderFacts {
                    parents: facts.parents,
                    author: facts.author,
                    committer: Some(identity),
                },
            ),
            Err(f) => Err(f),
        }
    } else {
        Ok(facts)
    }
}

/// Reads header lines in order; the first failing line decides the failure.
pub open spec fn scan_headers(lines: Seq<Seq<char>>) -> Result<HeaderFacts, ParseFailure>
    decreases lines.len(),
{
    if lines.len() == 0 {
        Ok(HeaderFacts { parents: Seq::empty(), author: None, committer: None })
    } else {
        match scan_headers(lines.drop_last()) {
            Ok(facts) => header_step(facts, lines.last()),
            Err(f) => Err(f),
        }
    }
}

proof fn lemma_scan_failure_persists(l: Seq<Seq<char>>, k: int)
    requires
        0 <= k <= l.len(),
        scan_headers(l.take(k)) is Err,
    ensures
        scan_headers(l) == scan_headers(l.take(k)),
    decreases l.len() - k,
{
    if k < l.len() {
        assert(l.take(k + 1).drop_last() =~= l.take(k));
        lemma_scan_failure_persists(l, k + 1);
    } else {
        assert(l.take(k) =~= l);
    }
}

/// Reading header lines, the author comes from an `author ` line and the
/// committer from a `committer ` line: each identity read is the one that
/// the value of such a line gives.
pub proof fn law_identities_come_from_their_header_lines(ls: Seq<Seq<char>>)
    requires
        scan_headers(ls) is Ok,
    ensures
        scan_headers(ls)->Ok_0.author matches Some(a) ==> exists|k: int|
            0 <= k < ls.len() && starts_with(ls[k], "author "@) && #[trigger] identity_from(
                ls[k].skip(7),
                "author"@,
            ) == Ok::<IdentityView, ParseFailure>(a),
        scan_headers(ls)->Ok_0.committer matches Some(c) ==> exists|k: int|
            0 <= k < ls.len() && starts_with(ls[k], "committer "@) && #[trigger] identity_from(
                ls[k].skip(10),
                "committer"@,
            ) == Ok::<IdentityView, ParseFailure>(c),
    decreases ls.len(),
{
    if ls.len() > 0 {
        let rest = ls.drop_last();
        let line = ls.last();
        law_identities_come_from_their_header_lines(rest);
        let pf = scan_headers(rest)->Ok_0;
        let f = scan_headers(ls)->Ok_0;
        reveal(header_step);
        if let Some(a) = f.author {
            if f.author == pf.author {
                let k = choose|k: int|
                    0 <= k < rest.len() && starts_with(rest[k], "author "@) && #[trigger] identity_from(
                        rest[k].skip(7),
                        "author"@,
                    ) == Ok::<IdentityView, ParseFailure>(a);
                assert(ls[k] == rest[k]);
                assert(identity_from(ls[k].skip(7), "author"@) == Ok::<IdentityView, ParseFailure>(a));
            } else {
                assert(identity_from(ls[ls.len() - 1].skip(7), "author"@) == Ok::<
                    IdentityView,
                    ParseFailure,
                >(a));
            }
        }
        if let Some(c) = f.committer {
            if f.committer == pf.committer {
                let k = choose|k: int|
                    0 <= k < rest.len() && starts_with(rest[k], "committer "@) && #[trigger] identity_from(
                        rest[k].skip(10),
                        "committer"@,
                    ) == Ok::<IdentityView, ParseFailure>(c);
                assert(ls[k] == rest[k]);
                assert(identity_from(ls[k].skip(10), "committer"@) == Ok::<IdentityView, ParseFailure>(c));
            } else {
                assert(identity_from(ls[ls.len() - 1].skip(10), "committer"@) == Ok::<
                    IdentityView,
                    ParseFailure,
                >(c));
            }
        }
    }
}

/// The first line of a commit message, or nothing for an empty message.
pub open spec fn subject_of(message: Seq<char>) -> Seq<char> {
    if lines(message).len() == 0 {
        Seq::empty()
    } else {
        lines(message)[0]
    }
}

/// The factual content of a commit's raw text.
pub struct CommitText {
    pub parent_hashes: Seq<Seq<char>>,
    pub author: IdentityView,
    pub committer: IdentityView,
    pub subject: Seq<char>,
    pub message: Seq<char>,
}

/// Reads a commit's raw text: headers up to the first blank line, then the
/// message. Both an author and a committer are required.
#[verifier::opaque]
pub open spec fn commit_from_text(raw: Seq<char>) -> Result<CommitText, ParseFailure> {
    match first_occurrence_from(raw, "\n\n"@, 0) {
        None => Err(ParseFailure::Malformed("raw Git commit object has no header separator"@)),
        Some(i) => {
            let message = raw.skip(i + 2);
            match scan_headers(lines(raw.take(i))) {
                Err(f) => Err(f),
                Ok(facts) => match (facts.author, facts.committer) {
                    (None, _) => Err(ParseFailure::Missing("raw Git commit author"@)),
                    (Some(_), None) => Err(ParseFailure::Missing("raw Git commit committer"@)),
                    (Some(author), Some(committer)) => Ok(
                        CommitText {
                            parent_hashes: facts.parents,
                            author,
                            committer,
                            subject: subject_of(message),
                            message,
                        },
                    ),
                },
            }
        },
    }
}

/// The value stored for `key` in ascending entries, if any.
#[verifier::opaque]
pub open spec fn value_for(entries: Seq<(Seq<char>, Seq<char>)>, key: Seq<char>) -> Option<Seq<char>> {
    if has_key(entries, key) {
        Some(choose|v: Seq<char>| maps_to(entries, key, v))
    } else {
        None
    }
}

/// The factual fields of a Git commit event.
pub struct CommitView {
    pub repository_display_name: Seq<char>,
    pub repository_reference: Seq<char>,
    pub commit_hash: Seq<char>,
    pub parent_hashes: Seq<Seq<char>>,
    pub author: IdentityView,
    pub committer: IdentityView,
    pub subject: Seq<char>,
    pub message: Seq<char>,
}

/// Why a Git commit event could not be read.
pub enum CommitFailure {
    /// The event belongs to another connector.
    ProvenanceMismatch,
    /// The event is not a commit.
    UnsupportedKind,
    /// Its payload could not be read.
    Parse(ParseFailure),
}

/// What reading an event as a Git commit of connector `connector` gives:
/// provenance and kind are checked first, then the repository display name,
/// repository reference and commit hash metadata, then that the payload is
/// UTF-8, then its text.
#[verifier::opaque]
pub open spec fn commit_outcome(e: EventView, connector: Seq<char>) -> Result<CommitView, CommitFailure> {
    let m = e.payload.metadata;
    if e.source.connector_id != connector {
        Err(CommitFailure::ProvenanceMismatch)
    } else if e.kind != commit_kind() {
        Err(CommitFailure::UnsupportedKind)
    } else if value_for(m, "git.repository_display_name"@) is None {
        Err(CommitFailure::Parse(ParseFailure::Missing("git.repository_display_name"@)))
    } else if value_for(m, "git.repository_reference"@) is None {
        Err(CommitFailure::Parse(ParseFailure::Missing("git.repository_reference"@)))
    } else if value_for(m, "git.commit_hash"@) is None {
        Err(CommitFailure::Parse(ParseFailure::Missing("git.commit_hash"@)))
    } else if !vstd::utf8::valid_utf8(e.payload.bytes) {
        Err(CommitFailure::Parse(ParseFailure::Malformed("raw Git commit object is not UTF-8"@)))
    } else {
        match commit_from_text(vstd::utf8::decode_utf8(e.payload.bytes)) {
            Err(f) => Err(CommitFailure::Parse(f)),
            Ok(t) => Ok(
                CommitView {
                    repository_display_name: value_for(m, "git.repository_display_name"@)->Some_0,
                    repository_reference: value_for(m, "git.repository_reference"@)->Some_0,
                    commit_hash: value_for(m, "git.commit_hash"@)->Some_0,
                    parent_hashes: t.parent_hashes,
                    author: t.author,
                    committer: t.committer,
                    subject: t.subject,
                    message: t.message,
                },
            ),
        }
    }
}

/// Whether a presentation error reports why an event could not be read as a
/// commit of connector `connector`.
pub open spec fn reports_commit_failure(
    err: PresentationError,
    f: CommitFailure,
    e: EventView,
    connector: Seq<char>,
) -> bool {
    match f {
        CommitFailure::ProvenanceMismatch => err matches PresentationError::ConnectorProvenanceMismatch {
            expected,
            actual,
        } && expected@ == connector && actual@ == e.source.connector_id,
        CommitFailure::UnsupportedKind => err matches PresentationError::UnsupportedEventKind(kind)
            && kind@ == e.kind,
        CommitFailure::Parse(p) => reports(err, p),
    }
}

/// The identity of a commit's author or committer.
pub struct GitIdentity {
    pub name: String,
    pub email: String,
    pub seconds: i64,
    pub timezone: String,
}

impl View for GitIdentity {
    type V = IdentityView;

    open spec fn view(&self) -> IdentityView {
        IdentityView {
            name: self.name@,
            email: self.email@,
            seconds: self.seconds,
            timezone: self.timezone@,
        }
    }
}

/// The views of strings.
pub open spec fn strings_view(v: Seq<String>) -> Seq<Seq<char>> {
    v.map_values(|s: String| s@)
}

/// The factual fields read from a Git commit event.
pub struct ParsedGitCommit {
    pub repository_display_name: String,
    pub repository_reference: String,
    pub commit_hash: String,
    pub parent_hashes: Vec<String>,
    pub author: GitIdentity,
    pub committer: GitIdentity,
    pub subject: String,
    pub message: String,
}

impl View for ParsedGitCommit {
    type V = CommitView;

    open spec fn view(&self) -> CommitView {
        CommitView {
            repository_display_name: self.repository_display_name@,
            repository_reference: self.repository_reference@,
            commit_hash: self.commit_hash@,
            parent_hashes: strings_view(self.parent_hashes@),
            author: self.author@,
            committer: self.committer@,
            subject: self.subject@,
            message: self.message@,
        }
    }
}

proof fn lemma_last_occurrence_is(s: Seq<char>, p: Seq<char>, i: int)
    requires
        occurs_at(s, p, i),
        forall|j: int| i < j ==> !occurs_at(s, p, j),
    ensures
        last_occurrence(s, p) == Some(i),
{
    let c = choose|c: int| occurs_at(s, p, c) && forall|j: int| c < j ==> !occurs_at(s, p, j);
    assert(occurs_at(s, p, c));
    if c < i {
    } else if c > i {
    }
}

proof fn lemma_first_occurrence_is(s: Seq<char>, p: Seq<char>, from: int, i: int)
    requires
        from <= i,
        occurs_at(s, p, i),
        forall|j: int| from <= j < i ==> !occurs_at(s, p, j),
    ensures
        first_occurrence_from(s, p, from) == Some(i),
{
    let c = choose|c: int|
        from <= c && occurs_at(s, p, c) && forall|j: int| from <= j < c ==> !occurs_at(s, p, j);
    assert(from <= c && occurs_at(s, p, c));
    if c < i {
    } else if c > i {
    }
}

/// Reads the value of an identity header line; `field` names the identity in
/// errors.
pub fn parse_identity(value: &Vec<char>, field: &str) -> (r: Result<GitIdentity, PresentationError>)
    ensures
        match identity_from(value@, field@) {
            Ok(i) => r matches Ok(g) && g@ == i,
            Err(f) => r matches Err(e) && reports(e, f),
        },
{
    reveal(identity_from);
    let name_marker = chars_of(" <");
    let name_end = match rfind(value, &name_marker) {
        Some(i) => i,
        None => {
            let mut detail = String::new();
            push_str(&mut detail, "raw Git commit ");
            push_str(&mut detail, field);
            push_str(&mut detail, " is missing a name or email");
            return Err(PresentationError::MalformedPayload { detail });
        },
    };
    proof {
        reveal_strlit(" <");
        lemma_last_occurrence_is(value@, " <"@, name_end as int);
        assert(name_marker@.len() == 2);
        assert(name_end + 2 <= value@.len());
    }
    let value_len = value.len();
    let suffix = slice_chars(value, name_end + 2, value_len);
    assert(suffix@ =~= value@.skip(name_end + 2));
    let email_marker = chars_of("> ");
    let email_end = match find_from(&suffix, &email_marker, 0) {
        Some(j) => j,
        None => {
            let mut detail = String::new();
            push_str(&mut detail, "raw Git commit ");
            push_str(&mut detail, field);
            push_str(&mut detail, " is missing timestamp data");
            return Err(PresentationError::MalformedPayload { detail });
        },
    };
    proof {
        reveal_strlit("> ");
        lemma_first_occurrence_is(suffix@, "> "@, 0, email_end as int);
        assert(email_marker@.len() == 2);
        assert(email_end + 2 <= suffix@.len());
    }
    let suffix_len = suffix.len();
    let timestamp = slice_chars(&suffix, email_end + 2, suffix_len);
    assert(timestamp@ =~= suffix@.skip(email_end + 2));
    let tokens = split_white_space(&timestamp);
    if tokens.len() == 0 {
        return Err(
            PresentationError::MissingFactualField { field: "raw Git commit timestamp".to_owned() },
        );
    }
    let seconds = match parse_i64(&tokens[0]) {
        Some(s) => s,
        None => {
            let mut detail = String::new();
            push_str(&mut detail, "raw Git commit ");
            push_str(&mut detail, field);
            push_str(&mut detail, " timestamp is not an integer");
            return Err(PresentationError::InvalidTimestamp { detail });
        },
    };
    if tokens.len() == 1 {
        return Err(
            PresentationError::MissingFactualField { field: "raw Git commit timezone".to_owned() },
        );
    }
    if tokens.len() > 2 {
        let mut detail = String::new();
        push_str(&mut detail, "raw Git commit ");
        push_str(&mut detail, field);
        push_str(&mut detail, " has trailing timestamp data");
        return Err(PresentationError::MalformedPayload { detail });
    }
    let name = slice_chars(value, 0, name_end);
    let email = slice_chars(&suffix, 0, email_end);
    assert(name@ =~= value@.take(name_end as int));
    assert(email@ =~= suffix@.take(email_end as int));
    Ok(
        GitIdentity {
            name: chars_to_string(&name),
            email: chars_to_string(&email),
            seconds,
            timezone: chars_to_string(&tokens[1]),
        },
    )
}

/// Reads bytes as text with `std::str::from_utf8`.
///
/// Claimed, as the function's documentation says: it succeeds exactly when
/// the bytes are valid UTF-8, and the text is the characters they encode.
#[verifier::external_body]
pub(crate) fn utf8_text(bytes: &[u8]) -> (r: Option<String>)
    ensures
        r is Some <==> vstd::utf8::valid_utf8(bytes@),
        r matches Some(s) ==> s@ == vstd::utf8::decode_utf8(bytes@),
{
    match std::str::from_utf8(bytes) {
        Ok(text) => Some(text.to_owned()),
        Err(_) => None,
    }
}

proof fn lemma_value_for_unique(entries: Seq<(Seq<char>, Seq<char>)>, key: Seq<char>, value: Seq<char>)
    requires
        keys_ascending(entries),
        maps_to(entries, key, value),
    ensures
        value_for(entries, key) == Some(value),
{
    reveal(value_for);
    let i = choose|i: int| 0 <= i < entries.len() && #[trigger] entries[i] == (key, value);
    assert(entries[i].0 == key);
    assert(has_key(entries, key));
    let v = choose|v: Seq<char>| maps_to(entries, key, v);
    assert(maps_to(entries, key, v));
    let j = choose|j: int| 0 <= j < entries.len() && #[trigger] entries[j] == (key, v);
    assert(entries[j].0 == key);
    lemma_ascending_unique(entries, i, j);
}

/// Returns the metadata value stored for `key`, or reports it missing.
pub fn required_metadata(metadata: &Metadata, key: &str) -> (r: Result<String, PresentationError>)
    ensures
        match value_for(metadata@, key@) {
            Some(v) => r matches Ok(s) && s@ == v,
            None => r matches Err(PresentationError::MissingFactualField { field }) && field@
                == key@,
        },
{
    let entries = metadata.as_text_map();
    proof {
        use_type_invariant(entries);
    }
    match metadata.get(key) {
        Some(value) => {
            proof {
                lemma_value_for_unique(metadata@, key@, value@);
            }
            Ok(value.clone())
        },
        None => {
            proof {
                reveal(value_for);
            }
            Err(PresentationError::MissingFactualField { field: key.to_owned() })
        },
    }
}

/// The views of character vectors.
pub open spec fn chars_views(v: Seq<Vec<char>>) -> Seq<Seq<char>> {
    v.map_values(|c: Vec<char>| c@)
}

/// The view of an optional identity.
pub open spec fn opt_identity(i: Option<GitIdentity>) -> Option<IdentityView> {
    match i {
        Some(g) => Some(g@),
        None => None,
    }
}

/// Reads a Git commit event of connector `connector_id` back into its
/// factual fields.
pub fn parse_git_commit(event: &Event, connector_id: &ConnectorId) -> (r: Result<
    ParsedGitCommit,
    PresentationError,
>)
    ensures
        match commit_outcome(event@, connector_id@) {
            Ok(c) => r matches Ok(p) && p@ == c,
            Err(f) => r matches Err(e) && reports_commit_failure(e, f, event@, connector_id@),
        },
{
    reveal(commit_outcome);
    if !event.source().connector_id().same_as(connector_id) {
        return Err(
            PresentationError::ConnectorProvenanceMismatch {
                expected: connector_id.duplicate(),
                actual: event.source().connector_id().duplicate(),
            },
        );
    }
    if !crate::text::str_eq(event.kind().as_str(), "git.commit") {
        return Err(PresentationError::UnsupportedEventKind(event.kind().duplicate()));
    }
    let metadata = event.payload().metadata();
    let repository_display_name = match required_metadata(metadata, "git.repository_display_name") {
        Ok(v) => v,
        Err(e) => return Err(e),
    };
    let repository_reference = match required_metadata(metadata, "git.repository_reference") {
        Ok(v) => v,
        Err(e) => return Err(e),
    };
    let commit_hash = match required_metadata(metadata, "git.commit_hash") {
        Ok(v) => v,
        Err(e) => return Err(e),
    };
    let raw = match utf8_text(event.payload().bytes().as_slice()) {
        Some(text) => text,
        None => {
            return Err(
                PresentationError::MalformedPayload {
                    detail: "raw Git commit object is not UTF-8".to_owned(),
                },
            );
        },
    };
    let text = chars_of(raw.as_str());
    match parse_commit_text(&text) {
        Ok(parts) => Ok(
            ParsedGitCommit {
                repository_display_name,
                repository_reference,
                commit_hash,
                parent_hashes: parts.parent_hashes,
                author: parts.author,
                committer: parts.committer,
                subject: parts.subject,
                message: parts.message,
            },
        ),
        Err(e) => Err(e),
    }
}

/// The factual fields of a commit's raw text.
pub struct ParsedCommitText {
    pub parent_hashes: Vec<String>,
    pub author: GitIdentity,
    pub committer: GitIdentity,
    pub subject: String,
    pub message: String,
}

impl View for ParsedCommitText {
    type V = CommitText;

    open spec fn view(&self) -> CommitText {
        CommitText {
            parent_hashes: strings_view(self.parent_hashes@),
            author: self.author@,
            committer: self.committer@,
            subject: self.subject@,
            message: self.message@,
        }
    }
}

/// Reads one header line into the facts read so far.
fn read_header_line(
    line: &Vec<char>,
    parents: &mut Vec<String>,
    author: &mut Option<GitIdentity>,
    committer: &mut Option<GitIdentity>,
) -> (r: Result<(), PresentationError>)
    ensures
        match header_step(
            HeaderFacts {
                parents: strings_view(old(parents)@),
                author: opt_identity(*old(author)),
                committer: opt_identity(*old(committer)),
            },
            line@,
        ) {
            Ok(f) => r is Ok && f == (HeaderFacts {
                parents: strings_view(final(parents)@),
                author: opt_identity(*final(author)),
                committer: opt_identity(*final(committer)),
            }),
            Err(fl) => r matches Err(e) && reports(e, fl),
        },
{
    reveal(header_step);
    let parent_prefix = chars_of("parent ");
    let author_prefix = chars_of("author ");
    let committer_prefix = chars_of("committer ");
    proof {
        reveal_strlit("parent ");
        reveal_strlit("author ");
        reveal_strlit("committer ");
    }
    let line_len = line.len();
    if has_prefix(line, &parent_prefix) {
        let rest = slice_chars(line, 7, line_len);
        assert(rest@ =~= line@.skip(7));
        let ghost before = strings_view(parents@);
        parents.push(chars_to_string(&rest));
        assert(strings_view(parents@) =~= before.push(line@.skip(7)));
        Ok(())
    } else if has_prefix(line, &author_prefix) {
        let rest = slice_chars(line, 7, line_len);
        assert(rest@ =~= line@.skip(7));
        match parse_identity(&rest, "author") {
            Ok(identity) => {
                *author = Some(identity);
                Ok(())
            },
            Err(e) => Err(e),
        }
    } else if has_prefix(line, &committer_prefix) {
        let rest = slice_chars(line, 10, line_len);
        assert(rest@ =~= line@.skip(10));
        match parse_identity(&rest, "committer") {
            Ok(identity) => {
                *committer = Some(identity);
                Ok(())
            },
            Err(e) => Err(e),
        }
    } else {
        Ok(())
    }
}

proof fn lemma_commit_text_failure(text: Seq<char>, split: int)
    requires
        first_occurrence_from(text, "\n\n"@, 0) == Some(split),
        scan_headers(lines(text.take(split))) is Err,
    ensures
        commit_from_text(text) == Err::<CommitText, ParseFailure>(
            scan_headers(lines(text.take(split)))->Err_0,
        ),
{
    reveal(commit_from_text);
}

proof fn lemma_commit_text_headers(text: Seq<char>, split: int)
    requires
        first_occurrence_from(text, "\n\n"@, 0) == Some(split),
        scan_headers(lines(text.take(split))) is Ok,
    ensures
        commit_from_text(text) == (match (
            scan_headers(lines(text.take(split)))->Ok_0.author,
            scan_headers(lines(text.take(split)))->Ok_0.committer,
        ) {
            (None, _) => Err(ParseFailure::Missing("raw Git commit author"@)),
            (Some(_), None) => Err(ParseFailure::Missing("raw Git commit committer"@)),
            (Some(author), Some(committer)) => Ok(
                CommitText {
                    parent_hashes: scan_headers(lines(text.take(split)))->Ok_0.parents,
                    author,
                    committer,
                    subject: subject_of(text.skip(split + 2)),
                    message: text.skip(split + 2),
                },
            ),
        }),
{
    reveal(commit_from_text);
}

/// Reads a commit's raw text into its factual fields.
#[verifier::rlimit(60)]
pub fn parse_commit_text(text: &Vec<char>) -> (r: Result<ParsedCommitText, PresentationError>)
    ensures
        match commit_from_text(text@) {
            Ok(t) => r matches Ok(p) && p@ == t,
            Err(f) => r matches Err(e) && reports(e, f),
        },
{
    let separator = chars_of("\n\n");
    let split = match find_from(&text, &separator, 0) {
        Some(i) => i,
        None => {
            proof {
                reveal(commit_from_text);
            }
            return Err(
                PresentationError::MalformedPayload {
                    detail: "raw Git commit object has no header separator".to_owned(),
                },
            );
        },
    };
    let text_len = text.len();
    proof {
        reveal_strlit("\n\n");
        lemma_first_occurrence_is(text@, "\n\n"@, 0, split as int);
        assert(separator@.len() == 2);
        assert(split + 2 <= text_len);
    }
    let headers = slice_chars(&text, 0, split);
    let message = slice_chars(&text, split + 2, text_len);
    assert(headers@ =~= text@.take(split as int));
    assert(message@ =~= text@.skip(split + 2));
    let header_lines = text_lines(&headers);
    let ghost all_lines = lines(headers@);
    assert(chars_views(header_lines@) =~= all_lines);
    let mut parents: Vec<String> = Vec::new();
    let mut author: Option<GitIdentity> = None;
    let mut committer: Option<GitIdentity> = None;
    let mut k: usize = 0;
    assert(all_lines.take(0) =~= Seq::<Seq<char>>::empty());
    assert(strings_view(parents@) =~= Seq::<Seq<char>>::empty());
    while k < header_lines.len()
        invariant
            k <= header_lines@.len(),
            all_lines == lines(headers@),
            headers@ == text@.take(split as int),
            first_occurrence_from(text@, "\n\n"@, 0) == Some(split as int),
            chars_views(header_lines@) == all_lines,
            scan_headers(all_lines.take(k as int)) == Ok::<HeaderFacts, ParseFailure>(
                HeaderFacts {
                    parents: strings_view(parents@),
                    author: opt_identity(author),
                    committer: opt_identity(committer),
                },
            ),
        decreases header_lines.len() - k,
    {
        let line = &header_lines[k];
        assert(all_lines[k as int] == line@);
        assert(all_lines.take(k + 1).drop_last() =~= all_lines.take(k as int));
        assert(all_lines.take(k + 1).last() == line@);
        match read_header_line(line, &mut parents, &mut author, &mut committer) {
            Ok(()) => {},
            Err(e) => {
                proof {
                    lemma_scan_failure_persists(all_lines, k + 1);
                    lemma_commit_text_failure(text@, split as int);
                }
                return Err(e);
            },
        }
        k = k + 1;
    }
    assert(all_lines.take(k as int) =~= all_lines);
    proof {
        lemma_commit_text_headers(text@, split as int);
    }
    let author = match author {
        Some(a) => a,
        None => {
            return Err(
                PresentationError::MissingFactualField { field: "raw Git commit author".to_owned() },
            );
        },
    };
    let committer = match committer {
        Some(c) => c,
        None => {
            return Err(
                PresentationError::MissingFactualField {
                    field: "raw Git commit committer".to_owned(),
                },
            );
        },
    };
    let message_lines = text_lines(&message);
    let subject = if message_lines.len() == 0 {
        String::new()
    } else {
        chars_to_string(&message_lines[0])
    };
    Ok(
        ParsedCommitText {
            parent_hashes: parents,
            author,
            committer,
            subject,
            message: chars_to_string(&message),
        },
    )
}

/// Parts joined with a separator between each two.
pub open spec fn join_text(parts: Seq<Seq<char>>, separator: Seq<char>) -> Seq<char>
    decreases parts.len(),
{
    if parts.len() == 0 {
        Seq::empty()
    } else if parts.len() == 1 {
        parts[0]
    } else {
        join_text(parts.drop_last(), separator) + separator + parts.last()
    }
}

/// Joins strings with a separator between each two.
pub fn join(parts: &Vec<String>, separator: &str) -> (r: String)
    ensures
        r@ == join_text(strings_view(parts@), separator@),
{
    let mut out = String::new();
    let mut i: usize = 0;
    while i < parts.len()
        invariant
            i <= parts@.len(),
            out@ == join_text(strings_view(parts@).take(i as int), separator@),
        decreases parts.len() - i,
    {
        let ghost done = strings_view(parts@).take(i as int);
        let ghost next = strings_view(parts@).take(i + 1);
        assert(next.drop_last() =~= done);
        if i > 0 {
            push_str(&mut out, separator);
        } else {
            assert(out@ == Seq::<char>::empty());
        }
        push_str(&mut out, parts[i].as_str());
        proof {
            if i == 0 {
                assert(out@ =~= next[0]);
            }
        }
        i = i + 1;
    }
    assert(strings_view(parts@).take(parts@.len() as int) =~= strings_view(parts@));
    out
}

/// The text of a commit's parent hashes: `(none)`, or the hashes joined by
/// `, `.
pub open spec fn parents_text(parents: Seq<Seq<char>>) -> Seq<char> {
    if parents.len() == 0 {
        "(none)"@
    } else {
        join_text(parents, ", "@)
    }
}

/// The compact presentation of a commit event.
pub open spec fn compact_commit_view(c: CommitView, e: EventView) -> CompactView {
    CompactView {
        source_label: "Git"@,
        title: c.subject,
        subtitle: Some(c.repository_display_name),
        timestamp: e.occurred_at,
        identifiers: seq![FieldView { label: "Commit"@, value: short_hash_text(c.commit_hash) }],
        key_fields: seq![FieldView { label: "Repository"@, value: c.repository_display_name }],
    }
}

/// The detailed presentation of a commit event.
pub open spec fn detailed_commit_view(c: CommitView, e: EventView) -> DetailedView {
    DetailedView {
        source_label: "Git"@,
        title: c.subject,
        timestamp: e.occurred_at,
        fields: seq![
            FieldView { label: "Repository"@, value: c.repository_display_name },
            FieldView { label: "Commit hash"@, value: c.commit_hash },
            FieldView { label: "Author name"@, value: c.author.name },
            FieldView { label: "Author email"@, value: c.author.email },
            FieldView {
                label: "Author timestamp"@,
                value: signed_decimal_text(c.author.seconds as int),
            },
            FieldView { label: "Author timezone"@, value: c.author.timezone },
            FieldView { label: "Committer name"@, value: c.committer.name },
            FieldView { label: "Committer email"@, value: c.committer.email },
            FieldView {
                label: "Committer timestamp"@,
                value: signed_decimal_text(c.committer.seconds as int),
            },
            FieldView { label: "Committer timezone"@, value: c.committer.timezone },
            FieldView { label: "Parent hashes"@, value: parents_text(c.parent_hashes) },
            FieldView { label: "Commit message"@, value: c.message },
        ],
        technical_identifiers: seq![
            FieldView { label: "Repository reference"@, value: c.repository_reference },
        ],
        raw_evidence: Some(
            RawEvidenceView {
                label: "Raw Git commit object"@,
                media_type: e.payload.media_type,
                bytes: e.payload.bytes,
            },
        ),
    }
}

/// Whether the first of `fields` labelled `label` holds `value`.
pub open spec fn first_labelled(fields: Seq<FieldView>, label: Seq<char>, value: Seq<char>) -> bool {
    exists|k: int|
        0 <= k < fields.len() && (#[trigger] fields[k]).label == label && fields[k].value == value
            && forall|j: int| 0 <= j < k ==> (#[trigger] fields[j]).label != label
}

/// In a commit's detailed presentation each Author field shows the author's
/// identity and each Committer field the committer's: the name, the email,
/// the timestamp in decimal seconds and the timezone; the Repository, Commit
/// hash and Commit message fields show the repository's display name, the
/// commit hash and the message.
pub proof fn law_detailed_fields_show_their_identity(c: CommitView, e: EventView)
    ensures
        first_labelled(detailed_commit_view(c, e).fields, "Author name"@, c.author.name),
        first_labelled(detailed_commit_view(c, e).fields, "Author email"@, c.author.email),
        first_labelled(
            detailed_commit_view(c, e).fields,
            "Author timestamp"@,
            signed_decimal_text(c.author.seconds as int),
        ),
        first_labelled(detailed_commit_view(c, e).fields, "Author timezone"@, c.author.timezone),
        first_labelled(detailed_commit_view(c, e).fields, "Committer name"@, c.committer.name),
        first_labelled(detailed_commit_view(c, e).fields, "Committer email"@, c.committer.email),
        first_labelled(
            detailed_commit_view(c, e).fields,
            "Committer timestamp"@,
            signed_decimal_text(c.committer.seconds as int),
        ),
        first_labelled(detailed_commit_view(c, e).fields, "Committer timezone"@, c.committer.timezone),
        first_labelled(detailed_commit_view(c, e).fields, "Repository"@, c.repository_display_name),
        first_labelled(detailed_commit_view(c, e).fields, "Commit hash"@, c.commit_hash),
        first_labelled(detailed_commit_view(c, e).fields, "Commit message"@, c.message),
{
    reveal_strlit("Repository");
    reveal_strlit("Commit hash");
    reveal_strlit("Author name");
    reveal_strlit("Author email");
    reveal_strlit("Author timestamp");
    reveal_strlit("Author timezone");
    reveal_strlit("Committer name");
    reveal_strlit("Committer email");
    reveal_strlit("Committer timestamp");
    reveal_strlit("Committer timezone");
    reveal_strlit("Parent hashes");
    reveal_strlit("Commit message");
    let f = detailed_commit_view(c, e).fields;
    assert forall|j: int| 0 <= j < 11 implies (#[trigger] f[j]).label != "Commit message"@ by {
        assert(f[j].label.len() != "Commit message"@.len() || f[j].label[7] != "Commit message"@[7]
            || f[j].label[0] != "Commit message"@[0]);
    }
    assert(f[2].label == "Author name"@);
    assert(f[3].label == "Author email"@);
    assert(f[4].label == "Author timestamp"@);
    assert(f[5].label == "Author timezone"@);
    assert(f[6].label == "Committer name"@);
    assert(f[7].label == "Committer email"@);
    assert(f[8].label == "Committer timestamp"@);
    assert(f[9].label == "Committer timezone"@);
    assert(f[0].label[0] != "Commit hash"@[0]);
    assert(f[0].label[0] != "Author name"@[0]);
    assert(f[1].label[0] != "Author name"@[0]);
    assert(f[0].label[0] != "Committer name"@[0] || f[0].label.len() != "Committer name"@.len());
    assert(f[1].label.len() != "Committer name"@.len() || f[1].label[6] != "Committer name"@[6]);
    assert(f[2].label[0] != "Committer name"@[0]);
    assert(f[3].label[0] != "Committer name"@[0]);
    assert(f[4].label[0] != "Committer name"@[0]);
    assert(f[5].label[0] != "Committer name"@[0]);
    assert(f[2].label[7] != "Author email"@[7]);
    assert(f[2].label[7] != "Author timestamp"@[7]);
    assert(f[3].label[7] != "Author timestamp"@[7]);
    assert(f[2].label[7] != "Author timezone"@[7]);
    assert(f[3].label[7] != "Author timezone"@[7]);
    assert(f[4].label.len() != "Author timezone"@.len());
    assert(f[6].label[10] != "Committer email"@[10]);
    assert(f[6].label[10] != "Committer timestamp"@[10]);
    assert(f[7].label[10] != "Committer timestamp"@[10]);
    assert(f[6].label[10] != "Committer timezone"@[10]);
    assert(f[7].label[10] != "Committer timezone"@[10]);
    assert(f[8].label.len() != "Committer timezone"@.len());
    assert(f[0].label[0] != "Author email"@[0]);
    assert(f[1].label[0] != "Author email"@[0]);
    assert(f[0].label[0] != "Author timestamp"@[0]);
    assert(f[1].label[0] != "Author timestamp"@[0]);
    assert(f[0].label[0] != "Author timezone"@[0]);
    assert(f[1].label[0] != "Author timezone"@[0]);
    assert(f[0].label[0] != "Committer email"@[0] || f[0].label.len() != "Committer email"@.len());
    assert(f[1].label.len() != "Committer email"@.len());
    assert(f[0].label.len() != "Committer timestamp"@.len());
    assert(f[1].label.len() != "Committer timestamp"@.len());
    assert(f[0].label.len() != "Committer timezone"@.len());
    assert(f[1].label.len() != "Committer timezone"@.len());
    assert(f[2].label[0] != "Committer email"@[0]);
    assert(f[3].label[0] != "Committer email"@[0]);
    assert(f[4].label[0] != "Committer email"@[0]);
    assert(f[5].label[0] != "Committer email"@[0]);
    assert(f[2].label[0] != "Committer timestamp"@[0]);
    assert(f[3].label[0] != "Committer timestamp"@[0]);
    assert(f[4].label[0] != "Committer timestamp"@[0]);
    assert(f[5].label[0] != "Committer timestamp"@[0]);
    assert(f[2].label[0] != "Committer timezone"@[0]);
    assert(f[3].label[0] != "Committer timezone"@[0]);
    assert(f[4].label[0] != "Committer timezone"@[0]);
    assert(f[5].label[0] != "Committer timezone"@[0]);
    assert(f[0].label.len() != "Commit hash"@.len());
    assert(f[0].label == "Repository"@ && f[1].label == "Commit hash"@ && f[11].label == "Commit message"@);
}

/// A commit's compact presentation is titled by its subject under the
/// repository's display name, from the "Git" source, and identifies the
/// commit by at most the first twelve characters of its hash, which begin
/// the full hash.
pub proof fn law_compact_commit_names_subject_and_repository(c: CommitView, e: EventView)
    ensures
        compact_commit_view(c, e).title == c.subject,
        compact_commit_view(c, e).subtitle == Some(c.repository_display_name),
        compact_commit_view(c, e).source_label == "Git"@,
        compact_commit_view(c, e).timestamp == e.occurred_at,
        compact_commit_view(c, e).identifiers.len() == 1,
        compact_commit_view(c, e).identifiers[0].label == "Commit"@,
        compact_commit_view(c, e).identifiers[0].value.len() <= 12,
        c.commit_hash.len() >= 12 ==> compact_commit_view(c, e).identifiers[0].value.len() == 12,
        c.commit_hash.take(compact_commit_view(c, e).identifiers[0].value.len() as int)
            == compact_commit_view(c, e).identifiers[0].value,
        detailed_commit_view(c, e).title == c.subject,
        first_labelled(
            detailed_commit_view(c, e).fields,
            "Parent hashes"@,
            if c.parent_hashes.len() == 0 {
                "(none)"@
            } else {
                join_text(c.parent_hashes, ", "@)
            },
        ),
{
    let v = compact_commit_view(c, e).identifiers[0].value;
    assert(c.commit_hash.take(v.len() as int) =~= v);
    lemma_parent_hashes_field(c, e);
}

proof fn lemma_parent_hashes_field(c: CommitView, e: EventView)
    ensures
        first_labelled(detailed_commit_view(c, e).fields, "Parent hashes"@, parents_text(c.parent_hashes)),
{
    reveal_strlit("Repository");
    reveal_strlit("Commit hash");
    reveal_strlit("Author name");
    reveal_strlit("Author email");
    reveal_strlit("Author timestamp");
    reveal_strlit("Author timezone");
    reveal_strlit("Committer name");
    reveal_strlit("Committer email");
    reveal_strlit("Committer timestamp");
    reveal_strlit("Committer timezone");
    reveal_strlit("Parent hashes");
    let f = detailed_commit_view(c, e).fields;
    assert forall|j: int| 0 <= j < 10 implies (#[trigger] f[j]).label != "Parent hashes"@ by {
        assert(f[j].label.len() != "Parent hashes"@.len() || f[j].label[0] != "Parent hashes"@[0]);
    }
    assert(f[10].label == "Parent hashes"@);
}

/// The header lines of a commit event's raw text: those before the first
/// blank line.
pub open spec fn commit_header_lines(e: EventView) -> Seq<Seq<char>> {
    let raw = vstd::utf8::decode_utf8(e.payload.bytes);
    match first_occurrence_from(raw, "\n\n"@, 0) {
        Some(i) => lines(raw.take(i)),
        None => Seq::empty(),
    }
}

/// Presenting a readable commit event in detail shows, under "Author name"
/// and "Author email", the name and email that an `author ` header line of
/// its raw text gives, and under "Committer name" and "Committer email" those
/// that a `committer ` header line gives.
pub proof fn law_detailed_identities_come_from_the_raw_headers(e: EventView, connector: Seq<char>)
    requires
        commit_outcome(e, connector) is Ok,
    ensures
        exists|k: int|
            0 <= k < commit_header_lines(e).len() && starts_with(commit_header_lines(e)[k], "author "@)
                && (#[trigger] identity_from(commit_header_lines(e)[k].skip(7), "author"@)) is Ok
                && first_labelled(
                detailed_commit_view(commit_outcome(e, connector)->Ok_0, e).fields,
                "Author name"@,
                identity_from(commit_header_lines(e)[k].skip(7), "author"@)->Ok_0.name,
            ) && first_labelled(
                detailed_commit_view(commit_outcome(e, connector)->Ok_0, e).fields,
                "Author email"@,
                identity_from(commit_header_lines(e)[k].skip(7), "author"@)->Ok_0.email,
            ),
        exists|k: int|
            0 <= k < commit_header_lines(e).len() && starts_with(
                commit_header_lines(e)[k],
                "committer "@,
            ) && (#[trigger] identity_from(commit_header_lines(e)[k].skip(10), "committer"@)) is Ok
                && first_labelled(
                detailed_commit_view(commit_outcome(e, connector)->Ok_0, e).fields,
                "Committer name"@,
                identity_from(commit_header_lines(e)[k].skip(10), "committer"@)->Ok_0.name,
            ) && first_labelled(
                detailed_commit_view(commit_outcome(e, connector)->Ok_0, e).fields,
                "Committer email"@,
                identity_from(commit_header_lines(e)[k].skip(10), "committer"@)->Ok_0.email,
            ),
{
    reveal(commit_outcome);
    reveal(commit_from_text);
    let c = commit_outcome(e, connector)->Ok_0;
    let ls = commit_header_lines(e);
    law_identities_come_from_their_header_lines(ls);
    law_detailed_fields_show_their_identity(c, e);
    let ka = choose|k: int|
        0 <= k < ls.len() && starts_with(ls[k], "author "@) && #[trigger] identity_from(
            ls[k].skip(7),
            "author"@,
        ) == Ok::<IdentityView, ParseFailure>(c.author);
    assert(identity_from(ls[ka].skip(7), "author"@) is Ok);
    let kc = choose|k: int|
        0 <= k < ls.len() && starts_with(ls[k], "committer "@) && #[trigger] identity_from(
            ls[k].skip(10),
            "committer"@,
        ) == Ok::<IdentityView, ParseFailure>(c.committer);
    assert(identity_from(ls[kc].skip(10), "committer"@) is Ok);
}

/// The signed decimal text of a number.
fn signed_decimal(n: i64) -> (r: String)
    ensures
        r@ == signed_decimal_text(n as int),
{
    let mut s = String::new();
    push_signed_decimal(&mut s, n);
    s
}

/// Factual Git commit presenter, independent of collection and storage.
#[derive(Debug)]
pub struct GitPresenter {
    connector_id: ConnectorId,
}

impl GitPresenter {
    /// The connector whose events this presenter reads.
    pub closed spec fn owned_connector(&self) -> Seq<char> {
        self.connector_id@
    }

    /// Creates a presenter for events produced by the Git connector.
    pub fn new() -> (r: Self)
        ensures
            r.owned_connector() == git_connector_id(),
    {
        GitPresenter { connector_id: ConnectorId::new("schomburg.git") }
    }

    /// Returns a presenter for the same connector.
    pub fn duplicate(&self) -> (r: Self)
        ensures
            r.owned_connector() == self.owned_connector(),
    {
        GitPresenter { connector_id: self.connector_id.duplicate() }
    }
}

impl Default for GitPresenter {
    fn default() -> (r: Self)
        ensures
            r.owned_connector() == git_connector_id(),
    {
        GitPresenter::new()
    }
}

impl EventPresenter for GitPresenter {
    open spec fn obeys_presenter_laws(&self) -> bool {
        true
    }

    open spec fn presented_connector(&self) -> Seq<char> {
        self.owned_connector()
    }

    open spec fn presents_compact(
        &self,
        event: crate::model::EventView,
        outcome: Result<CompactView, PresentationError>,
    ) -> bool {
        match commit_outcome(event, self.owned_connector()) {
            Ok(c) => outcome matches Ok(p) && p == compact_commit_view(c, event),
            Err(f) => outcome matches Err(e) && reports_commit_failure(e, f, event, self.owned_connector()),
        }
    }

    open spec fn presents_detailed(
        &self,
        event: crate::model::EventView,
        outcome: Result<DetailedView, PresentationError>,
    ) -> bool {
        match commit_outcome(event, self.owned_connector()) {
            Ok(c) => outcome matches Ok(p) && p == detailed_commit_view(c, event),
            Err(f) => outcome matches Err(e) && reports_commit_failure(e, f, event, self.owned_connector()),
        }
    }

    fn connector_id(&self) -> (r: &ConnectorId)
        ensures
            r@ == self.owned_connector(),
    {
        &self.connector_id
    }

    fn present_compact(&self, event: &Event) -> (r: Result<CompactPresentation, PresentationError>)
        ensures
            match commit_outcome(event@, self.owned_connector()) {
                Ok(c) => r matches Ok(p) && p@ == compact_commit_view(c, event@),
                Err(f) => r matches Err(e) && reports_commit_failure(
                    e,
                    f,
                    event@,
                    self.owned_connector(),
                ),
            },
    {
        let commit = match parse_git_commit(event, &self.connector_id) {
            Ok(c) => c,
            Err(e) => return Err(e),
        };
        let mut identifiers: Vec<PresentationField> = Vec::new();
        identifiers.push(
            PresentationField::from_strings("Commit".to_owned(), short_hash(commit.commit_hash.as_str())),
        );
        let mut key_fields: Vec<PresentationField> = Vec::new();
        key_fields.push(
            PresentationField::from_strings(
                "Repository".to_owned(),
                commit.repository_display_name.clone(),
            ),
        );
        assert(fields_view(identifiers@) =~= seq![
            FieldView { label: "Commit"@, value: short_hash_text(commit@.commit_hash) },
        ]);
        assert(fields_view(key_fields@) =~= seq![
            FieldView { label: "Repository"@, value: commit@.repository_display_name },
        ]);
        Ok(
            CompactPresentation::new(
                "Git",
                commit.subject,
                Some(commit.repository_display_name),
                event.occurred_at().as_system_time(),
                identifiers,
                key_fields,
            ),
        )
    }

    fn present_detailed(&self, event: &Event) -> (r: Result<DetailedPresentation, PresentationError>)
        ensures
            match commit_outcome(event@, self.owned_connector()) {
                Ok(c) => r matches Ok(p) && p@ == detailed_commit_view(c, event@),
                Err(f) => r matches Err(e) && reports_commit_failure(
                    e,
                    f,
                    event@,
                    self.owned_connector(),
                ),
            },
    {
        let commit = match parse_git_commit(event, &self.connector_id) {
            Ok(c) => c,
            Err(e) => return Err(e),
        };
        let ghost c = commit@;
        let parents = if commit.parent_hashes.len() == 0 {
            "(none)".to_owned()
        } else {
            join(&commit.parent_hashes, ", ")
        };
        let mut fields: Vec<PresentationField> = Vec::new();
        fields.push(PresentationField::from_strings("Repository".to_owned(), commit.repository_display_name));
        fields.push(PresentationField::from_strings("Commit hash".to_owned(), commit.commit_hash));
        fields.push(PresentationField::from_strings("Author name".to_owned(), commit.author.name));
        fields.push(PresentationField::from_strings("Author email".to_owned(), commit.author.email));
        fields.push(
            PresentationField::from_strings(
                "Author timestamp".to_owned(),
                signed_decimal(commit.author.seconds),
            ),
        );
        fields.push(PresentationField::from_strings("Author timezone".to_owned(), commit.author.timezone));
        fields.push(PresentationField::from_strings("Committer name".to_owned(), commit.committer.name));
        fields.push(
            PresentationField::from_strings("Committer email".to_owned(), commit.committer.email),
        );
        fields.push(
            PresentationField::from_strings(
                "Committer timestamp".to_owned(),
                signed_decimal(commit.committer.seconds),
            ),
        );
        fields.push(
            PresentationField::from_strings("Committer timezone".to_owned(), commit.committer.timezone),
        );
        fields.push(PresentationField::from_strings("Parent hashes".to_owned(), parents));
        fields.push(PresentationField::from_strings("Commit message".to_owned(), commit.message));
        let mut technical: Vec<PresentationField> = Vec::new();
        technical.push(
            PresentationField::from_strings(
                "Repository reference".to_owned(),
                commit.repository_reference,
            ),
        );
        let media_type = match event.payload().media_type() {
            Some(m) => Some(m.as_str().to_owned()),
            None => None,
        };
        let raw = RawEvidence::new("Raw Git commit object", media_type, event.payload().bytes().clone());
        let ghost expected = detailed_commit_view(c, event@);
        assert(fields_view(fields@) =~= expected.fields);
        assert(fields_view(technical@) =~= expected.technical_identifiers);
        Ok(
            DetailedPresentation::new(
                "Git",
                commit.subject,
                event.occurred_at().as_system_time(),
                fields,
                technical,
                Some(raw),
            ),
        )
    }
}

} // verus!
