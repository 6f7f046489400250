use schomburg::commit::{parse_git_commit, GitPresenter};
use schomburg::connector::{EventPresenter, PresentationError};
use schomburg::git::{
    add_candidate, discovery_step, event_for_commit, git_candidate, hex, is_excluded_directory,
    DiscoveryStep,
    repository_reference, short_hash, system_time_from_git_seconds, GitConnectorError, RawCommit,
};
use schomburg::model::{ConnectorId, UnixTime};

const HASH: &str = "0123456789abcdef0123456789abcdef01234567";
const PARENT: &str = "89abcdef0123456789abcdef0123456789abcdef";

fn raw_commit_text(message: &str) -> String {
    format!(
        "tree 4b825dc642cb6eb9a060e54bf8d69288fbee4904\nparent {PARENT}\nauthor Author Name <author@example.com> 30 +0000\ncommitter Committer Name <committer@example.com> 40 +0100\n\n{message}"
    )
}

fn raw(message: &str) -> RawCommit {
    RawCommit {
        hash: HASH.to_owned(),
        is_commit: true,
        committer_seconds: 40,
        data: raw_commit_text(message).into_bytes(),
        captured_at: UnixTime::from_unix_seconds(1_000),
    }
}

#[test]
fn event_preserves_git_fields_and_uses_committer_time() {
    let message = "subject\n\nmessage body\nwith non-ASCII: café\n";
    let event = event_for_commit("git-dir-hex:2f72", "project", raw(message)).expect("event");
    assert_eq!(event.id().as_str(), format!("git:commit:git-dir-hex:2f72:{HASH}"));
    assert_eq!(event.kind().as_str(), "git.commit");
    assert_eq!(event.source().connector_id().as_str(), "schomburg.git");
    assert_eq!(event.source().reference().as_str(), HASH);
    assert_eq!(
        event.occurred_at().as_system_time(),
        UnixTime::from_unix_seconds(40)
    );
    assert_eq!(
        event.captured_at().as_system_time(),
        UnixTime::from_unix_seconds(1_000)
    );
    assert_eq!(event.payload().bytes(), &raw_commit_text(message).into_bytes());
    let raw_text = String::from_utf8_lossy(event.payload().bytes()).into_owned();
    assert!(raw_text.contains(&format!("parent {PARENT}")));
    assert!(raw_text.contains("author Author Name <author@example.com> 30 +0000"));
    assert!(raw_text.contains("committer Committer Name <committer@example.com> 40 +0100"));
    assert!(raw_text.contains(message));
    assert_eq!(
        event.payload().media_type().map(|m| m.as_str()),
        Some("application/vnd.git.commit")
    );
    let metadata = event.payload().metadata();
    assert_eq!(
        metadata.get("git.repository_reference").map(String::as_str),
        Some("git-dir-hex:2f72")
    );
    assert_eq!(
        metadata.get("git.repository_display_name").map(String::as_str),
        Some("project")
    );
    assert_eq!(metadata.get("git.commit_hash").map(String::as_str), Some(HASH));
    assert_eq!(
        metadata.get("git.payload_format").map(String::as_str),
        Some("raw-commit-object")
    );
}

#[test]
fn objects_that_are_not_commits_are_malformed() {
    let mut commit = raw("subject\n");
    commit.is_commit = false;
    assert!(matches!(
        event_for_commit("git-dir-hex:00", "project", commit),
        Err(GitConnectorError::MalformedCommit { commit_hash, detail })
            if commit_hash == HASH && detail == "object is not a commit"
    ));
}

#[test]
fn same_commit_hash_in_distinct_repository_identities_has_distinct_event_ids() {
    let first = repository_reference(b"/work/one/.git");
    let second = repository_reference(b"/work/two/.git");
    assert_ne!(first, second);
    let a = event_for_commit(&first, "one", raw("same")).expect("first");
    let b = event_for_commit(&second, "two", raw("same")).expect("second");
    assert_ne!(a.id(), b.id());
}

#[test]
fn repository_references_spell_the_directory_in_hexadecimal() {
    assert_eq!(repository_reference(b"/a"), "git-dir-hex:2f61");
    assert_eq!(hex(&[0, 15, 16, 255]), "000f10ff");
    assert_eq!(short_hash(HASH), "0123456789ab");
    assert_eq!(short_hash("abc"), "abc");
}

#[test]
fn git_seconds_become_times_on_both_sides_of_the_epoch() {
    assert_eq!(system_time_from_git_seconds(40), UnixTime::from_unix_seconds(40));
    assert_eq!(system_time_from_git_seconds(-5), UnixTime::from_unix_seconds(-5));
}

#[test]
fn presenter_returns_factual_compact_and_detailed_commit_data() {
    let message = "subject café\n\nfull message\nwith another line\n";
    let event = event_for_commit("git-dir-hex:2f72", "project", raw(message)).expect("event");
    let presenter = GitPresenter::new();
    let compact = presenter.present_compact(&event).expect("compact presentation");
    let detailed = presenter.present_detailed(&event).expect("detailed presentation");
    assert_eq!(compact.source_label(), "Git");
    assert_eq!(compact.title(), "subject café");
    assert_eq!(compact.subtitle(), Some("project"));
    assert_eq!(compact.identifiers()[0].value(), &HASH[..12]);
    assert!(detailed
        .fields()
        .iter()
        .any(|field| field.label() == "Commit message" && field.value() == message));
    assert!(detailed
        .fields()
        .iter()
        .any(|field| field.label() == "Commit hash" && field.value() == HASH));
    assert!(detailed
        .fields()
        .iter()
        .any(|field| field.label() == "Parent hashes" && field.value() == PARENT));
    assert!(detailed
        .fields()
        .iter()
        .any(|field| field.label() == "Committer timezone" && field.value() == "+0100"));
    assert_eq!(
        detailed.raw_evidence().expect("raw evidence").bytes(),
        event.payload().bytes()
    );
}

#[test]
fn parsed_commits_keep_identities_and_parents() {
    let event = event_for_commit("git-dir-hex:2f72", "project", raw("subject\n\nbody\n"))
        .expect("event");
    let parsed = parse_git_commit(&event, &ConnectorId::new("schomburg.git")).expect("parsed");
    assert_eq!(parsed.commit_hash, HASH);
    assert_eq!(parsed.parent_hashes, vec![PARENT.to_owned()]);
    assert_eq!(parsed.author.name, "Author Name");
    assert_eq!(parsed.author.email, "author@example.com");
    assert_eq!(parsed.author.seconds, 30);
    assert_eq!(parsed.committer.timezone, "+0100");
    assert_eq!(parsed.subject, "subject");
    assert_eq!(parsed.message, "subject\n\nbody\n");
}

#[test]
fn presenter_rejects_unowned_kind_and_malformed_payload() {
    let presenter = GitPresenter::new();
    let mut commit = raw("subject");
    commit.data = b"not a commit".to_vec();
    let malformed = event_for_commit("git-dir-hex:00", "project", commit).expect("event");
    assert!(matches!(
        presenter.present_compact(&malformed),
        Err(PresentationError::MalformedPayload { .. })
    ));
    assert!(matches!(
        parse_git_commit(&malformed, &ConnectorId::new("other.connector")),
        Err(PresentationError::ConnectorProvenanceMismatch { .. })
    ));
}

#[test]
fn discovery_skips_build_and_tool_directories() {
    for name in [".git", "target", "node_modules", ".schomburg", ".build", "build", "dist"] {
        assert!(is_excluded_directory(name));
    }
    assert!(!is_excluded_directory("src"));
}

#[test]
fn candidates_are_kept_once_per_identity_in_identity_order() {
    let mut candidates = Vec::new();
    assert!(add_candidate(&mut candidates, git_candidate("git-dir-hex:02", "b", "/b")));
    assert!(add_candidate(&mut candidates, git_candidate("git-dir-hex:01", "a", "/a")));
    assert!(!add_candidate(&mut candidates, git_candidate("git-dir-hex:02", "c", "/c")));
    let names: Vec<&str> = candidates.iter().map(|c| c.display_name()).collect();
    assert_eq!(names, vec!["a", "b"]);
    assert_eq!(candidates[0].configuration(), "/a");
    assert_eq!(candidates[0].connector_id().as_str(), "schomburg.git");
}

#[test]
fn discovery_scans_eight_levels_and_skips_links_files_and_exclusions() {
    assert_eq!(discovery_step(9, false, true, "src", false), DiscoveryStep::Stop);
    assert_eq!(discovery_step(8, false, true, "src", false), DiscoveryStep::Descend);
    assert_eq!(discovery_step(0, true, true, "repo", true), DiscoveryStep::Skip);
    assert_eq!(discovery_step(0, false, false, "notes.txt", false), DiscoveryStep::Skip);
    assert_eq!(discovery_step(0, false, true, "node_modules", true), DiscoveryStep::Skip);
    assert_eq!(discovery_step(3, false, true, "project", true), DiscoveryStep::Repository);
}
