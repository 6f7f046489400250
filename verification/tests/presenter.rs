use schomburg::commit::GitPresenter;
use schomburg::connector::{PresentationField, PresentationRegistry};
use schomburg::git::{event_for_commit, RawCommit};
use schomburg::model::UnixTime;
use schomburg::presenter::{
    add_entry, file_action, LocalParts, record_path, render_markdown, DailyRecord, FileAction, Presenter,
    PresenterError, RecordDate, RecordGenerationResult, TimelineEntry,
};

fn record() -> DailyRecord {
    DailyRecord {
        date: RecordDate::parse("2024-01-02").expect("date"),
        heading: "Tuesday, January 02, 2024".to_owned(),
        entries: vec![
            TimelineEntry {
                time: "09:15 AM".to_owned(),
                source: "Repo".to_owned(),
                title: "Add *exact* subject".to_owned(),
                identifiers: vec![PresentationField::new("Commit", "0123456789ab")],
                error: None,
            },
            TimelineEntry {
                time: "10:00 AM".to_owned(),
                source: "unknown.connector".to_owned(),
                title: "Evidence presentation error".to_owned(),
                identifiers: Vec::new(),
                error: Some("no presenter".to_owned()),
            },
        ],
    }
}

#[test]
fn rendered_records_are_marked_and_list_each_entry() {
    let text = render_markdown(&record());
    assert_eq!(
        text,
        "<!-- schomburg-record: v1 -->\n# Tuesday, January 02, 2024\n\n## 09:15 AM\n\n### Repo\n\nAdd *exact* subject\n\nCommit · 0123456789ab\n\n---\n\n## 10:00 AM\n\n### unknown.connector\n\nEvidence presentation error\n\nPresentation error: no presenter\n\n---\n"
    );
}

#[test]
fn regeneration_is_idempotent_and_ownership_is_respected() {
    let body = render_markdown(&record());
    assert_eq!(file_action(Some(&body), true, &body), FileAction::Unchanged);
    assert_eq!(file_action(None, false, &body), FileAction::Create);
    assert_eq!(
        file_action(Some("<!-- schomburg-record: v1 -->\nuser edit\n"), true, &body),
        FileAction::Update
    );
    assert_eq!(file_action(Some("user content"), true, &body), FileAction::Conflict);
    let mut counts = RecordGenerationResult::new();
    counts.record_file(FileAction::Create);
    counts.record_file(FileAction::Unchanged);
    counts.record_file(FileAction::Conflict);
    assert_eq!(counts.dates_generated, 2);
    assert_eq!(counts.files_created, 1);
    assert_eq!(counts.files_unchanged, 1);
}

#[test]
fn record_dates_and_paths_have_a_fixed_shape() {
    assert!(matches!(
        RecordDate::parse("2024-1-2"),
        Err(PresenterError::InvalidDate(d)) if d == "2024-1-2"
    ));
    let date = RecordDate::parse("2024-01-02").expect("date");
    assert_eq!(
        String::from_utf8(record_path("/records", &date)).expect("utf8"),
        "/records/2024/01/2024-01-02.md"
    );
    assert_eq!(
        PresenterError::OwnershipConflict("/r/x.md".to_owned()).message(),
        "record ownership conflict: /r/x.md"
    );
}

#[test]
fn daily_records_group_events_by_local_date() {
    let commit = |hash: &str, seconds: i64| RawCommit {
        hash: hash.to_owned(),
        is_commit: true,
        committer_seconds: seconds,
        data: format!("tree 1\nauthor A <a@b> {seconds} +0000\ncommitter A <a@b> {seconds} +0000\n\n{hash} subject\n").into_bytes(),
        captured_at: UnixTime::from_unix_seconds(seconds),
    };
    let first = event_for_commit("git-dir-hex:00", "Repo", commit("aaaa", 100_000)).expect("event");
    let second = event_for_commit("git-dir-hex:00", "Repo", commit("bbbb", 100_060)).expect("event");
    let mut registry = PresentationRegistry::new();
    registry.register(GitPresenter::new()).expect("register");
    let presenter = Presenter::new(registry);
    let (records, counts) = presenter
        .daily_records(&vec![first, second], None)
        .expect("records");
    assert_eq!(records.len(), 1);
    assert_eq!(records[0].entries.len(), 2);
    assert_eq!(records[0].entries[0].title, "aaaa subject");
    assert_eq!(counts.events_presented, 2);
    assert_eq!(counts.presentation_errors, 0);
}

#[test]
fn no_events_make_no_records() {
    let presenter = Presenter::new(PresentationRegistry::<GitPresenter>::new());
    let (records, counts) = presenter.daily_records(&Vec::new(), None).expect("records");
    assert!(records.is_empty());
    assert_eq!(counts.events_presented + counts.presentation_errors, 0);
}

#[test]
fn entries_join_the_record_of_their_date_in_date_order() {
    let entry = |title: &str| TimelineEntry {
        time: "09:00 AM".to_owned(),
        source: "Repo".to_owned(),
        title: title.to_owned(),
        identifiers: Vec::new(),
        error: None,
    };
    let mut records = Vec::new();
    add_entry(&mut records, RecordDate::parse("2024-01-03").expect("date"), "Third".to_owned(), entry("a"));
    add_entry(&mut records, RecordDate::parse("2024-01-01").expect("date"), "First".to_owned(), entry("b"));
    add_entry(&mut records, RecordDate::parse("2024-01-03").expect("date"), "ignored".to_owned(), entry("c"));
    let dates: Vec<&str> = records.iter().map(|r| r.date.as_str()).collect();
    assert_eq!(dates, vec!["2024-01-01", "2024-01-03"]);
    assert_eq!(records[1].heading, "Third");
    let titles: Vec<&str> = records[1].entries.iter().map(|e| e.title.as_str()).collect();
    assert_eq!(titles, vec!["a", "c"]);
}

#[test]
fn grouping_by_given_local_parts_is_exact() {
    let commit = |hash: &str, seconds: i64| RawCommit {
        hash: hash.to_owned(),
        is_commit: true,
        committer_seconds: seconds,
        data: format!("tree 1\nauthor A <a@b> {seconds} +0000\ncommitter A <a@b> {seconds} +0000\n\n{hash} subject\n").into_bytes(),
        captured_at: UnixTime::from_unix_seconds(seconds),
    };
    let events = vec![
        event_for_commit("git-dir-hex:00", "Repo", commit("aaaa", 100_000)).expect("event"),
        event_for_commit("git-dir-hex:00", "Repo", commit("bbbb", 200_000)).expect("event"),
        event_for_commit("git-dir-hex:00", "Repo", commit("cccc", 300_000)).expect("event"),
    ];
    let part = |date: &str, time: &str, heading: &str| LocalParts {
        date: RecordDate::parse(date).expect("date"),
        time: time.to_owned(),
        heading: heading.to_owned(),
    };
    let parts = vec![
        part("2024-01-03", "08:00 AM", "Wednesday"),
        part("2024-01-02", "09:00 AM", "Tuesday"),
        part("2024-01-03", "10:00 AM", "Wednesday"),
    ];
    let mut registry = PresentationRegistry::new();
    registry.register(GitPresenter::new()).expect("register");
    let presenter = Presenter::new(registry);
    let (records, counts) = presenter.group_daily_records(&events, &parts, None);
    assert_eq!(records.len(), 2);
    assert_eq!(records[0].date.as_str(), "2024-01-02");
    assert_eq!(records[0].heading, "Tuesday");
    assert_eq!(records[0].entries.len(), 1);
    assert_eq!(records[0].entries[0].title, "bbbb subject");
    assert_eq!(records[0].entries[0].time, "09:00 AM");
    assert_eq!(records[1].date.as_str(), "2024-01-03");
    assert_eq!(records[1].entries.len(), 2);
    assert_eq!(records[1].entries[0].title, "aaaa subject");
    assert_eq!(records[1].entries[1].title, "cccc subject");
    assert_eq!(counts.events_presented, 3);
    let only = RecordDate::parse("2024-01-03").expect("date");
    let (kept, kept_counts) = presenter.group_daily_records(&events, &parts, Some(&only));
    assert_eq!(kept.len(), 1);
    assert_eq!(kept[0].entries.len(), 2);
    assert_eq!(kept_counts.events_presented, 2);
    let unregistered = Presenter::new(PresentationRegistry::<GitPresenter>::new());
    let (failed, failed_counts) = unregistered.group_daily_records(&events, &parts, None);
    assert_eq!(failed.len(), 2);
    assert!(failed[0].entries[0].error.is_some());
    assert_eq!(failed_counts.presentation_errors, 3);
}
