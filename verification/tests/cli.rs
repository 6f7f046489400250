use schomburg::agent::CollectionCycleReport;
use schomburg::cli::{
    append_fields, collected_output, discovered_output, format_raw_event_record,
    format_raw_event_summary, format_system_time, parse_command, parse_options,
    parse_presentation_options, raw_events_output, required_option, status_changed_output, usage,
    CliCommand, CliError,
};
use schomburg::connector::PresentationField;
use schomburg::git::event_for_commit;
use schomburg::git::RawCommit;
use schomburg::model::UnixTime;
use schomburg::operations::ConnectionStatus;

fn arguments(values: &[&str]) -> Vec<String> {
    values.iter().map(|value| (*value).to_owned()).collect()
}

#[test]
fn commands_read_their_database_and_arguments() {
    assert!(matches!(
        parse_command(&arguments(&["init", "--db", "a.sqlite3"])),
        Ok(CliCommand::Init { db }) if db == "a.sqlite3"
    ));
    assert!(matches!(
        parse_command(&arguments(&["import", "git", "--repo", "r", "--db", "d"])),
        Ok(CliCommand::ImportGit { repo, db }) if repo == "r" && db == "d"
    ));
    assert!(matches!(
        parse_command(&arguments(&["events", "--db", "d", "--raw"])),
        Ok(CliCommand::Events { raw: true, db }) if db == "d"
    ));
    assert!(matches!(
        parse_command(&arguments(&["event", "e-1", "--db", "d"])),
        Ok(CliCommand::Event { id, raw: false, db }) if id == "e-1" && db == "d"
    ));
    assert!(matches!(
        parse_command(&arguments(&["pause", "c-1", "--db", "d"])),
        Ok(CliCommand::ConnectionAction { id, status: ConnectionStatus::Paused, db })
            if id == "c-1" && db == "d"
    ));
    assert!(matches!(
        parse_command(&arguments(&["decline", "s-1", "--db", "d"])),
        Ok(CliCommand::SourceAction { id, approve: false, .. }) if id == "s-1"
    ));
    assert!(matches!(
        parse_command(&arguments(&["collect", "--db", "d"])),
        Ok(CliCommand::Collect { db }) if db == "d"
    ));
}

#[test]
fn malformed_commands_fail_with_usage_or_missing_values() {
    assert!(matches!(parse_command(&[]), Err(CliError::Usage(u)) if u == usage()));
    assert!(matches!(
        parse_command(&arguments(&["frobnicate"])),
        Err(CliError::Usage(_))
    ));
    assert!(matches!(
        parse_command(&arguments(&["import", "svn", "--db", "d"])),
        Err(CliError::Usage(_))
    ));
    assert!(matches!(
        parse_command(&arguments(&["sources", "--db"])),
        Err(CliError::MissingOptionValue(flag)) if flag == "--db"
    ));
    assert!(matches!(
        parse_command(&arguments(&["sources", "--db", ""])),
        Err(CliError::MissingRequiredOption(name)) if name == "db"
    ));
    assert!(matches!(
        parse_command(&arguments(&["sources", "--other", "x"])),
        Err(CliError::Usage(_))
    ));
    assert!(matches!(
        parse_command(&arguments(&["events", "--raw", "--raw", "--db", "d"])),
        Err(CliError::Usage(_))
    ));
}

#[test]
fn missing_or_invalid_event_ids_fail_clearly() {
    assert!(matches!(
        parse_command(&arguments(&["event", "missing", "--db", "database.sqlite3"])),
        Ok(CliCommand::Event { id, raw: false, db }) if id == "missing" && db == "database.sqlite3"
    ));
    assert!(matches!(
        parse_command(&arguments(&["event", "", "--db", "d"])),
        Err(CliError::InvalidEventId(id)) if id.is_empty()
    ));
    assert!(matches!(
        parse_command(&arguments(&["event", "--db", "d"])),
        Err(CliError::InvalidEventId(id)) if id == "--db"
    ));
    assert_eq!(
        CliError::InvalidEventId(String::new()).message(),
        "invalid EventId: \"\""
    );
    assert_eq!(
        CliError::EventNotFound("missing".to_owned()).message(),
        "event not found: missing"
    );
}

#[test]
fn discovery_requires_its_root_only_after_the_database() {
    let command = parse_command(&arguments(&["discover", "--db", "d"])).expect("command");
    let CliCommand::Discover { options, db } = command else {
        panic!("discover command");
    };
    assert_eq!(db, "d");
    assert!(matches!(
        required_option(&options, "root"),
        Err(CliError::MissingRequiredOption(name)) if name == "root"
    ));
}

#[test]
fn options_keep_their_order_and_strip_every_leading_dash_pair() {
    let options = parse_options(&arguments(&["----db", "x", "--root", "y"]), &["db", "root"])
        .expect("options");
    assert_eq!(
        options,
        vec![("db".to_owned(), "x".to_owned()), ("root".to_owned(), "y".to_owned())]
    );
    assert!(matches!(
        parse_options(&arguments(&["--db", "x", "--db", "y"]), &["db"]),
        Err(CliError::Usage(_))
    ));
    let (raw, options) =
        parse_presentation_options(&arguments(&["--raw", "--db", "z"])).expect("options");
    assert!(raw);
    assert_eq!(options, vec![("db".to_owned(), "z".to_owned())]);
}

#[test]
fn command_outputs_are_exact() {
    assert_eq!(discovered_output(2), "discovered: 2\n");
    let report = CollectionCycleReport {
        imported: 3,
        failed: 1,
        skipped: 0,
    };
    assert_eq!(collected_output(&report), "imported: 3\nfailed: 1\nskipped: 0\n");
    assert_eq!(status_changed_output(ConnectionStatus::Disconnected), "disconnected\n");
    let mut text = String::from("head\n");
    append_fields(
        &mut text,
        &[PresentationField::new("A", "1"), PresentationField::new("B", "2")],
    );
    assert_eq!(text, "head\nA: 1\nB: 2\n");
}

#[test]
fn raw_times_show_signed_seconds_and_nine_digits_of_nanoseconds() {
    assert_eq!(format_system_time(UnixTime::from_unix_seconds(10)), "+10.000000000s");
    assert_eq!(format_system_time(UnixTime::from_unix_seconds(-3)), "-3.000000000s");
    let t = UnixTime::after_epoch(1, 5).expect("time");
    assert_eq!(format_system_time(t), "+1.000000005s");
}

#[test]
fn raw_records_show_every_stored_fact() {
    let data = b"tree 1\nauthor A <a@b> 1 +0000\ncommitter A <a@b> 1 +0000\n\nmessage".to_vec();
    let event = event_for_commit(
        "git-dir-hex:00",
        "repo",
        RawCommit {
            hash: "abc".to_owned(),
            is_commit: true,
            committer_seconds: 10,
            data,
            captured_at: UnixTime::from_unix_seconds(20),
        },
    )
    .expect("event");
    let summary = format_raw_event_summary(&event);
    assert_eq!(
        summary,
        "id: git:commit:git-dir-hex:00:abc\noccurred_at: +10.000000000s\ncaptured_at: +20.000000000s\nconnector: schomburg.git\nsource: abc\nkind: git.commit\n"
    );
    let record = format_raw_event_record(&event);
    assert!(record.starts_with(&summary));
    assert!(record.contains("schema_version: 1\n"));
    assert!(record.contains("payload_media_type: application/vnd.git.commit\n"));
    assert!(record.contains("metadata.git.commit_hash: abc\n"));
    assert!(record.contains("payload_bytes_hex: 7472656520310a"));
    assert!(record.ends_with("git_commit_raw:\ntree 1\nauthor A <a@b> 1 +0000\ncommitter A <a@b> 1 +0000\n\nmessage\n"));
    assert_eq!(raw_events_output(&Vec::new()), "no events\n");
    assert_eq!(raw_events_output(&vec![event.clone(), event]), format!("{summary}\n{summary}"));
}
