//! Read-only, source-agnostic daily evidence records: grouping events by
//! local date, the Markdown of a day, where it is written, and whether an
//! existing file may be replaced.

use crate::connector::{
    fields_view, CompactPresentation, EventPresenter, FieldView, PresentationError,
    PresentationField, PresentationRegistry, presentation_error_text,
};
use crate::clock::{format_local, local_offset_seconds, local_time_text, presentable_time};
use crate::model::{Event, UnixTime};
use crate::scan::starts_with;
use crate::text::{push_str, str_eq, text_lt};
use vstd::prelude::*;

verus! {

/// The first line of every generated record; a file without it belongs to
/// someone else.
pub open spec fn record_marker() -> Seq<char> {
    "<!-- schomburg-record: v1 -->"@
}

/// Whether text is accepted as a record date: ten bytes of UTF-8 with `-`
/// as the fifth and eighth.
pub open spec fn record_date_shape(value: Seq<char>) -> bool {
    let b = vstd::utf8::encode_utf8(value);
    b.len() == 10 && b[4] == 45 && b[7] == 45
}

/// A local calendar date used for a daily record.
#[derive(Debug, Eq, Ord, PartialEq, PartialOrd)]
pub struct RecordDate(String);

impl Clone for RecordDate {
    fn clone(&self) -> (r: Self)
        ensures
            r@ == self@,
    {
        proof {
            use_type_invariant(self);
        }
        RecordDate(self.0.clone())
    }
}

impl View for RecordDate {
    type V = Seq<char>;

    closed spec fn view(&self) -> Seq<char> {
        self.0@
    }
}

/// Errors from generating daily records.
#[derive(Debug)]
pub enum PresenterError {
    Store(String),
    InvalidDate(String),
    Folder(String),
    Write(String),
    Time(String),
    OwnershipConflict(String),
}

/// The message that describes a presenter error.
pub open spec fn presenter_error_text(e: PresenterError) -> Seq<char> {
    match e {
        PresenterError::Store(s) => "database read failure: "@ + s@,
        PresenterError::InvalidDate(s) => "invalid date: "@ + s@,
        PresenterError::Folder(s) => "record folder failure: "@ + s@,
        PresenterError::Write(s) => "record write failure: "@ + s@,
        PresenterError::Time(s) => "local time conversion failure: "@ + s@,
        PresenterError::OwnershipConflict(path) => "record ownership conflict: "@ + path@,
    }
}

impl PresenterError {
    /// Describes the error for a person.
    pub fn message(&self) -> (r: String)
        ensures
            r@ == presenter_error_text(*self),
    {
        let mut s = String::new();
        match self {
            PresenterError::Store(v) => {
                push_str(&mut s, "database read failure: ");
                push_str(&mut s, v.as_str());
            },
            PresenterError::InvalidDate(v) => {
                push_str(&mut s, "invalid date: ");
                push_str(&mut s, v.as_str());
            },
            PresenterError::Folder(v) => {
                push_str(&mut s, "record folder failure: ");
                push_str(&mut s, v.as_str());
            },
            PresenterError::Write(v) => {
                push_str(&mut s, "record write failure: ");
                push_str(&mut s, v.as_str());
            },
            PresenterError::Time(v) => {
                push_str(&mut s, "local time conversion failure: ");
                push_str(&mut s, v.as_str());
            },
            PresenterError::OwnershipConflict(path) => {
                push_str(&mut s, "record ownership conflict: ");
                push_str(&mut s, path.as_str());
            },
        }
        s
    }
}

impl RecordDate {
    /// Every record date has a year (its first four bytes), a separator and
    /// a month (its sixth and seventh bytes).
    #[verifier::type_invariant]
    closed spec fn has_year_and_month(self) -> bool {
        vstd::utf8::encode_utf8(self.0@).len() >= 7
    }

    /// Accepts a date written as ten bytes with `-` as the fifth and eighth,
    /// such as `2024-05-01`; anything else is an invalid date.
    pub fn parse(value: &str) -> (r: Result<Self, PresenterError>)
        ensures
            record_date_shape(value@) ==> (r matches Ok(d) && d@ == value@),
            !record_date_shape(value@) ==> (r matches Err(PresenterError::InvalidDate(v)) && v@
                == value@),
    {
        let bytes = value.as_bytes();
        if bytes.len() == 10 && bytes[4] == 45u8 && bytes[7] == 45u8 {
            Ok(RecordDate(value.to_owned()))
        } else {
            Err(PresenterError::InvalidDate(value.to_owned()))
        }
    }

    /// Wraps the date text that local time formatting produced, which
    /// holds at least a year, a separator and a month.
    pub fn from_formatted(value: String) -> (r: Self)
        requires
            vstd::utf8::encode_utf8(value@).len() >= 7,
        ensures
            r@ == value@,
    {
        RecordDate(value)
    }

    /// Returns the date text.
    pub fn as_str(&self) -> (r: &str)
        ensures
            r@ == self@,
    {
        self.0.as_str()
    }

    /// Returns a copy of the date.
    pub fn duplicate(&self) -> (r: Self)
        ensures
            r@ == self@,
    {
        proof {
            use_type_invariant(self);
        }
        RecordDate(self.0.clone())
    }
}

/// A path joined with one more component, as `Path::join` joins byte
/// paths on Unix: an absolute component replaces the path, and a `/` is
/// added unless the path is empty or already ends with one.
pub open spec fn path_join_bytes(base: Seq<u8>, part: Seq<u8>) -> Seq<u8> {
    if part.len() > 0 && part[0] == 47 {
        part
    } else if base.len() == 0 || base.last() == 47 {
        base + part
    } else {
        base + seq![47u8] + part
    }
}

/// Joins a byte path with one more component, as `Path::join` does on Unix.
pub fn path_join(base: &[u8], part: &[u8]) -> (r: Vec<u8>)
    ensures
        r@ == path_join_bytes(base@, part@),
{
    let mut out: Vec<u8> = Vec::new();
    if part.len() > 0 && part[0] == 47u8 {
        append_bytes(&mut out, part);
        assert(out@ =~= part@);
        return out;
    }
    append_bytes(&mut out, base);
    if !(base.len() == 0 || base[base.len() - 1] == 47u8) {
        out.push(47u8);
    }
    append_bytes(&mut out, part);
    proof {
        if base@.len() == 0 || base@.last() == 47 {
            assert(out@ =~= base@ + part@);
        } else {
            assert(out@ =~= base@ + seq![47u8] + part@);
        }
    }
    out
}

/// Appends bytes to a vector.
fn append_bytes(out: &mut Vec<u8>, bytes: &[u8])
    ensures
        final(out)@ == old(out)@ + bytes@,
{
    let mut i: usize = 0;
    while i < bytes.len()
        invariant
            i <= bytes@.len(),
            out@ == old(out)@ + bytes@.take(i as int),
        decreases bytes.len() - i,
    {
        out.push(bytes[i]);
        assert(bytes@.take(i + 1) =~= bytes@.take(i as int).push(bytes@[i as int]));
        i = i + 1;
    }
    assert(bytes@.take(bytes@.len() as int) =~= bytes@);
}

/// The file of a daily record below the Record Folder, as a byte path:
/// `folder/YYYY/MM/YYYY-MM-DD.md`, the year being the date's first four
/// bytes and the month its sixth and seventh.
pub open spec fn record_path_bytes(folder: Seq<u8>, date: Seq<u8>) -> Seq<u8> {
    path_join_bytes(
        path_join_bytes(path_join_bytes(folder, date.take(4)), date.subrange(5, 7)),
        date + ".md"@.map_values(|c: char| c as u8),
    )
}

/// Returns the file of a daily record below the Record Folder, as a byte
/// path.
pub fn record_path(folder: &str, date: &RecordDate) -> (r: Vec<u8>)
    ensures
        r@ == record_path_bytes(vstd::utf8::encode_utf8(folder@), vstd::utf8::encode_utf8(date@)),
{
    proof {
        use_type_invariant(date);
    }
    let date_bytes = date.as_str().as_bytes();
    let folder_bytes = folder.as_bytes();
    let year = crate::serialization::byte_slice(date_bytes, 0, 4);
    let month = crate::serialization::byte_slice(date_bytes, 5, 7);
    let mut file: Vec<u8> = Vec::new();
    append_bytes(&mut file, date_bytes);
    file.push(46u8);
    file.push(109u8);
    file.push(100u8);
    proof {
        reveal_strlit(".md");
        assert(".md"@.map_values(|c: char| c as u8) =~= seq![46u8, 109u8, 100u8]);
        assert(year@ =~= date_bytes@.take(4));
    }
    let a = path_join(folder_bytes, year.as_slice());
    let b = path_join(a.as_slice(), month.as_slice());
    path_join(b.as_slice(), file.as_slice())
}

/// The format of a record date.
pub open spec fn date_format() -> Seq<char> {
    "[year]-[month]-[day]"@
}

/// The format of a record's heading.
pub open spec fn heading_format() -> Seq<char> {
    "[weekday repr:long], [month repr:long] [day], [year]"@
}

/// The format of an entry's time of day.
pub open spec fn clock_format() -> Seq<char> {
    "[hour repr:12]:[minute] [period case:upper]"@
}

/// The local date, time of day and heading of a time.
pub struct LocalParts {
    pub date: RecordDate,
    pub time: String,
    pub heading: String,
}

/// What formatting a time at a local offset gives: the date, time of day and
/// heading texts, or the message of the first failure (date, then heading,
/// then time of day).
pub open spec fn parts_at(nanos: int, offset: int) -> Result<(Seq<char>, Seq<char>, Seq<char>), Seq<char>> {
    match local_time_text(nanos, offset, date_format()) {
        Err(m) => Err(m),
        Ok(date) => match local_time_text(nanos, offset, heading_format()) {
            Err(m) => Err(m),
            Ok(heading) => match local_time_text(nanos, offset, clock_format()) {
                Err(m) => Err(m),
                Ok(time) => Ok((date, time, heading)),
            },
        },
    }
}

/// Returns the local date, time of day and heading of a time, in the
/// system's local time zone.
pub fn local_parts(value: UnixTime) -> (r: Result<LocalParts, PresenterError>)
    requires
        presentable_time(value@),
    ensures
        r matches Ok(p) ==> exists|offset: int|
            -93_599 <= offset <= 93_599 && #[trigger] parts_at(value@, offset) == Ok::<
                (Seq<char>, Seq<char>, Seq<char>),
                Seq<char>,
            >((p.date@, p.time@, p.heading@)),
        r matches Err(e) ==> e is Time,
{
    let offset = match local_offset_seconds(value) {
        Ok(o) => o,
        Err(m) => return Err(PresenterError::Time(m)),
    };
    let date = match format_local(value, offset, "[year]-[month]-[day]") {
        Ok(d) => d,
        Err(m) => return Err(PresenterError::Time(m)),
    };
    if date.as_str().as_bytes().len() < 7 {
        return Err(PresenterError::Time(date));
    }
    let heading = match format_local(value, offset, "[weekday repr:long], [month repr:long] [day], [year]") {
        Ok(h) => h,
        Err(m) => return Err(PresenterError::Time(m)),
    };
    let time = match format_local(value, offset, "[hour repr:12]:[minute] [period case:upper]") {
        Ok(t) => t,
        Err(m) => return Err(PresenterError::Time(m)),
    };
    let r = LocalParts { date: RecordDate::from_formatted(date), time, heading };
    assert(parts_at(value@, offset as int) == Ok::<(Seq<char>, Seq<char>, Seq<char>), Seq<char>>(
        (r.date@, r.time@, r.heading@),
    ));
    Ok(r)
}

/// Returns the local calendar date used for record grouping.
pub fn record_date_for(value: UnixTime) -> (r: Result<RecordDate, PresenterError>)
    requires
        presentable_time(value@),
    ensures
        r matches Ok(d) ==> exists|offset: int|
            -93_599 <= offset <= 93_599 && #[trigger] local_time_text(value@, offset, date_format())
                == Ok::<Seq<char>, Seq<char>>(d@),
        r matches Err(e) ==> e is Time,
{
    match local_parts(value) {
        Ok(p) => Ok(p.date),
        Err(e) => Err(e),
    }
}

/// The mathematical content of a [`TimelineEntry`].
pub struct EntryView {
    pub time: Seq<char>,
    pub source: Seq<char>,
    pub title: Seq<char>,
    pub identifiers: Seq<FieldView>,
    pub error: Option<Seq<char>>,
}

/// One factual timeline entry or an explicit presentation-error entry.
#[derive(Clone, Debug, Eq, PartialEq)]
pub struct TimelineEntry {
    pub time: String,
    pub source: String,
    pub title: String,
    pub identifiers: Vec<PresentationField>,
    pub error: Option<String>,
}

impl View for TimelineEntry {
    type V = EntryView;

    open spec fn view(&self) -> EntryView {
        EntryView {
            time: self.time@,
            source: self.source@,
            title: self.title@,
            identifiers: fields_view(self.identifiers@),
            error: crate::connector::opt_view(self.error),
        }
    }
}

/// The mathematical content of a [`DailyRecord`].
pub struct RecordView {
    pub date: Seq<char>,
    pub heading: Seq<char>,
    pub entries: Seq<EntryView>,
}

/// Structured daily read model for renderers.
#[derive(Clone, Debug, Eq, PartialEq)]
pub struct DailyRecord {
    pub date: RecordDate,
    pub heading: String,
    pub entries: Vec<TimelineEntry>,
}

/// The views of timeline entries.
pub open spec fn entries_view(e: Seq<TimelineEntry>) -> Seq<EntryView> {
    e.map_values(|x: TimelineEntry| x@)
}

impl View for DailyRecord {
    type V = RecordView;

    open spec fn view(&self) -> RecordView {
        RecordView { date: self.date@, heading: self.heading@, entries: entries_view(self.entries@) }
    }
}

/// The entry for an event whose compact presentation gave `result`: the
/// presentation's subtitle (or source label), title and identifiers, or an
/// explicit error entry naming the event's connector.
pub open spec fn entry_from(
    result: Result<crate::connector::CompactView, PresentationError>,
    time: Seq<char>,
    connector: Seq<char>,
) -> EntryView {
    match result {
        Ok(p) => EntryView {
            time,
            source: match p.subtitle {
                Some(s) => s,
                None => p.source_label,
            },
            title: p.title,
            identifiers: p.identifiers,
            error: None,
        },
        Err(e) => EntryView {
            time,
            source: connector,
            title: "Evidence presentation error"@,
            identifiers: Seq::empty(),
            error: Some(presentation_error_text(e)),
        },
    }
}

/// A timeline entry made from a successful compact presentation takes its
/// source from the presentation's subtitle when there is one, and from its
/// source label only when there is none; its title and identifiers are the
/// presentation's and it carries no error. One made from a failed
/// presentation names the event's connector and carries the error's message.
pub proof fn law_entry_source_prefers_subtitle(
    result: Result<crate::connector::CompactView, PresentationError>,
    time: Seq<char>,
    connector: Seq<char>,
)
    ensures
        entry_from(result, time, connector).time == time,
        match result {
            Ok(p) => {
                &&& entry_from(result, time, connector).source == match p.subtitle {
                    Some(subtitle) => subtitle,
                    None => p.source_label,
                }
                &&& p.subtitle is None ==> entry_from(result, time, connector).source == p.source_label
                &&& entry_from(result, time, connector).title == p.title
                &&& entry_from(result, time, connector).identifiers == p.identifiers
                &&& entry_from(result, time, connector).error is None
            },
            Err(e) => {
                &&& entry_from(result, time, connector).source == connector
                &&& entry_from(result, time, connector).error == Some(presentation_error_text(e))
            },
        },
{
}

/// The timeline entry of a Git commit event, presented compactly, is headed
/// by the repository's display name, not by the "Git" source label.
pub proof fn law_commit_entries_name_their_repository(
    c: crate::commit::CommitView,
    e: crate::model::EventView,
    time: Seq<char>,
)
    ensures
        entry_from(
            Ok(crate::commit::compact_commit_view(c, e)),
            time,
            e.source.connector_id,
        ).source == c.repository_display_name,
        entry_from(
            Ok(crate::commit::compact_commit_view(c, e)),
            time,
            e.source.connector_id,
        ).title == c.subject,
{
}

/// Returns copies of presentation fields.
pub fn duplicate_fields(fields: &Vec<PresentationField>) -> (r: Vec<PresentationField>)
    ensures
        fields_view(r@) == fields_view(fields@),
{
    let mut out: Vec<PresentationField> = Vec::new();
    let mut i: usize = 0;
    while i < fields.len()
        invariant
            i <= fields@.len(),
            out@.len() == i,
            forall|j: int| 0 <= j < i ==> (#[trigger] out@[j])@ == fields@[j]@,
        decreases fields.len() - i,
    {
        let f = &fields[i];
        let copy = PresentationField::new(f.label(), f.value());
        assert(copy@ == f@);
        out.push(copy);
        i = i + 1;
    }
    assert(fields_view(out@) =~= fields_view(fields@));
    out
}

/// Builds the timeline entry for an event from its presentation result.
pub fn entry_from_presentation(
    result: Result<CompactPresentation, PresentationError>,
    time: String,
    event: &Event,
) -> (r: TimelineEntry)
    ensures
        r@ == entry_from(crate::connector::compact_outcome(result), time@, event@.source.connector_id),
{
    match result {
        Ok(p) => {
            let source = match p.subtitle() {
                Some(s) => s.to_owned(),
                None => p.source_label().to_owned(),
            };
            TimelineEntry {
                time,
                source,
                title: p.title().to_owned(),
                identifiers: duplicate_fields(p.identifiers()),
                error: None,
            }
        },
        Err(e) => {
            let r = TimelineEntry {
                time,
                source: event.source().connector_id().as_str().to_owned(),
                title: "Evidence presentation error".to_owned(),
                identifiers: Vec::new(),
                error: Some(e.message()),
            };
            assert(fields_view(r.identifiers@) =~= Seq::<FieldView>::empty());
            r
        },
    }
}

/// The lines that list an entry's identifiers: `label · value` each.
pub open spec fn identifiers_text(ids: Seq<FieldView>) -> Seq<char>
    decreases ids.len(),
{
    if ids.len() == 0 {
        Seq::empty()
    } else {
        identifiers_text(ids.drop_last()) + ids.last().label + " · "@ + ids.last().value + "\n"@
    }
}

/// The Markdown of one timeline entry.
pub open spec fn entry_text(e: EntryView) -> Seq<char> {
    "\n## "@ + e.time + "\n\n### "@ + e.source + "\n\n"@ + e.title + "\n\n"@ + match e.error {
        Some(error) => "Presentation error: "@ + error + "\n"@,
        None => identifiers_text(e.identifiers),
    } + "\n---\n"@
}

/// The Markdown of timeline entries in order.
pub open spec fn entries_text(entries: Seq<EntryView>) -> Seq<char>
    decreases entries.len(),
{
    if entries.len() == 0 {
        Seq::empty()
    } else {
        entries_text(entries.drop_last()) + entry_text(entries.last())
    }
}

/// The Markdown of a daily record: the ownership marker, the heading, then
/// each entry.
pub open spec fn markdown_text(r: RecordView) -> Seq<char> {
    record_marker() + "\n# "@ + r.heading + "\n"@ + entries_text(r.entries)
}

/// Appends the identifier lines of an entry.
fn push_identifiers(out: &mut String, identifiers: &Vec<PresentationField>)
    ensures
        final(out)@ == old(out)@ + identifiers_text(fields_view(identifiers@)),
{
    let mut k: usize = 0;
    while k < identifiers.len()
        invariant
            k <= identifiers@.len(),
            out@ == old(out)@ + identifiers_text(fields_view(identifiers@).take(k as int)),
        decreases identifiers.len() - k,
    {
        let id = &identifiers[k];
        assert(fields_view(identifiers@).take(k + 1).drop_last() =~= fields_view(identifiers@).take(
            k as int,
        ));
        push_str(out, id.label());
        push_str(out, " · ");
        push_str(out, id.value());
        push_str(out, "\n");
        k = k + 1;
    }
    assert(fields_view(identifiers@).take(k as int) =~= fields_view(identifiers@));
}

/// Appends the Markdown of one entry.
fn push_entry(out: &mut String, entry: &TimelineEntry)
    ensures
        final(out)@ == old(out)@ + entry_text(entry@),
{
    push_str(out, "\n## ");
    push_str(out, entry.time.as_str());
    push_str(out, "\n\n### ");
    push_str(out, entry.source.as_str());
    push_str(out, "\n\n");
    push_str(out, entry.title.as_str());
    push_str(out, "\n\n");
    match &entry.error {
        Some(error) => {
            push_str(out, "Presentation error: ");
            push_str(out, error.as_str());
            push_str(out, "\n");
        },
        None => {
            push_identifiers(out, &entry.identifiers);
        },
    }
    push_str(out, "\n---\n");
}

/// Renders a daily record as Markdown.
pub fn render_markdown(record: &DailyRecord) -> (r: String)
    ensures
        r@ == markdown_text(record@),
{
    let mut out = String::new();
    push_str(&mut out, "<!-- schomburg-record: v1 -->");
    push_str(&mut out, "\n# ");
    push_str(&mut out, record.heading.as_str());
    push_str(&mut out, "\n");
    let ghost head = out@;
    let mut i: usize = 0;
    while i < record.entries.len()
        invariant
            i <= record.entries@.len(),
            head == record_marker() + "\n# "@ + record.heading@ + "\n"@,
            out@ == head + entries_text(entries_view(record.entries@).take(i as int)),
        decreases record.entries.len() - i,
    {
        let entry = &record.entries[i];
        push_entry(&mut out, entry);
        assert(entries_view(record.entries@).take(i + 1).drop_last() =~= entries_view(
            record.entries@,
        ).take(i as int));
        assert(entries_view(record.entries@).take(i + 1).last() == entry@);
        i = i + 1;
    }
    assert(entries_view(record.entries@).take(i as int) =~= entries_view(record.entries@));
    out
}

/// Every rendered record begins with the ownership marker, so the files it
/// is written to are recognised as generated.
pub proof fn law_rendered_records_are_owned(r: RecordView)
    ensures
        starts_with(markdown_text(r), record_marker()),
{
    let m = markdown_text(r);
    assert(m.take(record_marker().len() as int) =~= record_marker());
}

/// Whether record dates strictly ascend.
pub open spec fn dates_ascending(records: Seq<DailyRecord>) -> bool {
    forall|i: int, j: int|
        0 <= i < j < records.len() ==> text_lt(#[trigger] records[i]@.date, #[trigger] records[j]@.date)
}

/// The record for `date` that a first entry starts.
pub open spec fn new_record(date: Seq<char>, heading: Seq<char>, entry: EntryView) -> RecordView {
    RecordView { date, heading, entries: seq![entry] }
}

/// The views of daily records.
pub open spec fn records_view(records: Seq<DailyRecord>) -> Seq<RecordView> {
    records.map_values(|r: DailyRecord| r@)
}

/// The number of records whose date comes before `date`.
pub open spec fn earlier_count(records: Seq<RecordView>, date: Seq<char>) -> nat
    decreases records.len(),
{
    if records.len() == 0 {
        0
    } else {
        earlier_count(records.drop_last(), date) + if text_lt(records.last().date, date) {
            1nat
        } else {
            0nat
        }
    }
}

/// The position of the record for `date`, if any.
pub open spec fn date_index(records: Seq<RecordView>, date: Seq<char>) -> Option<int> {
    if exists|i: int| 0 <= i < records.len() && (#[trigger] records[i]).date == date {
        Some(choose|i: int| 0 <= i < records.len() && (#[trigger] records[i]).date == date)
    } else {
        None
    }
}

/// Records with one entry added: to the record of its date, or in a new
/// record with `heading` placed after every record of an earlier date.
pub open spec fn with_entry(
    records: Seq<RecordView>,
    date: Seq<char>,
    heading: Seq<char>,
    entry: EntryView,
) -> Seq<RecordView> {
    match date_index(records, date) {
        Some(i) => records.update(
            i,
            RecordView { entries: records[i].entries.push(entry), ..records[i] },
        ),
        None => records.insert(earlier_count(records, date) as int, new_record(date, heading, entry)),
    }
}

/// The daily records that entries, each with its local date and heading,
/// make when added in order: one record per date, dates ascending, and each
/// record's entries in the order given, under the heading of its first.
pub open spec fn grouped(items: Seq<(Seq<char>, Seq<char>, EntryView)>) -> Seq<RecordView>
    decreases items.len(),
{
    if items.len() == 0 {
        Seq::empty()
    } else {
        with_entry(grouped(items.drop_last()), items.last().0, items.last().1, items.last().2)
    }
}

/// The date that `only` asks for, if any.
pub open spec fn only_view(only: Option<&RecordDate>) -> Option<Seq<char>> {
    match only {
        Some(d) => Some(d@),
        None => None,
    }
}

/// Whether a record date is kept when `only` asks for a date.
pub open spec fn kept(date: Seq<char>, only: Option<Seq<char>>) -> bool {
    match only {
        Some(d) => date == d,
        None => true,
    }
}

/// The entries, with their dates and headings, that the first `n` events
/// make from their local parts `parts` and presentation results `res`: one
/// for each event whose date is kept, in order.
pub open spec fn day_items(
    events: Seq<Event>,
    parts: Seq<LocalParts>,
    only: Option<Seq<char>>,
    res: Seq<Result<crate::connector::CompactView, PresentationError>>,
    n: int,
) -> Seq<(Seq<char>, Seq<char>, EntryView)>
    decreases n,
{
    if n <= 0 {
        Seq::empty()
    } else {
        let prev = day_items(events, parts, only, res, n - 1);
        let p = parts[n - 1];
        if kept(p.date@, only) {
            prev.push(
                (p.date@, p.heading@, entry_from(res[n - 1], p.time@, events[n - 1]@.source.connector_id)),
            )
        } else {
            prev
        }
    }
}

/// Whether `outcome` is a compact presentation that a registry holding
/// `presenters` for the connectors `ids` can give of an event: "not found"
/// when no presenter is held for its connector, and otherwise one that the
/// presenter held for it can give, when that presenter follows its laws.
pub open spec fn routed_compact<P: EventPresenter>(
    ids: Seq<Seq<char>>,
    presenters: Seq<P>,
    e: crate::model::EventView,
    outcome: Result<crate::connector::CompactView, PresentationError>,
) -> bool {
    &&& !ids.contains(e.source.connector_id) ==> (outcome matches Err(
        PresentationError::PresenterNotFound(id),
    ) && id@ == e.source.connector_id)
    &&& ids.contains(e.source.connector_id) ==> exists|k: int|
        0 <= k < ids.len() && ids[k] == e.source.connector_id && (
        #[trigger] presenters[k].obeys_presenter_laws() ==> presenters[k].presents_compact(
            e,
            outcome,
        ))
}

/// Whether `res` holds, for each of the first `n` events whose date is
/// kept, a compact presentation that the registry can give of it.
pub open spec fn presented_as<P: EventPresenter>(
    ids: Seq<Seq<char>>,
    presenters: Seq<P>,
    events: Seq<Event>,
    parts: Seq<LocalParts>,
    only: Option<Seq<char>>,
    res: Seq<Result<crate::connector::CompactView, PresentationError>>,
    n: int,
) -> bool {
    forall|i: int|
        0 <= i < n && kept(parts[i].date@, only) ==> routed_compact(
            ids,
            presenters,
            events[i]@,
            #[trigger] res[i],
        )
}

/// What grouping events into daily records by their local parts gives:
/// records with ascending dates, each with entries, all of `only`'s date
/// when given, counted; with no date asked for, one entry per event; and
/// exactly the records that the events' entries make, for some
/// presentation results.
pub open spec fn daily_grouping<P: EventPresenter>(
    registered: Seq<Seq<char>>,
    presenters: Seq<P>,
    events: Seq<Event>,
    parts: Seq<LocalParts>,
    only: Option<Seq<char>>,
    records: Seq<DailyRecord>,
    counts: RecordGenerationResult,
) -> bool {
    &&& dates_ascending(records)
    &&& forall|i: int| 0 <= i < records.len() ==> (#[trigger] records[i]@).entries.len() > 0
    &&& only matches Some(d) ==> forall|i: int| 0 <= i < records.len() ==> (#[trigger] records[i]@).date == d
    &&& counts.events_presented + counts.presentation_errors == entry_count(records)
    &&& counts.dates_generated == 0 && counts.files_created == 0 && counts.files_updated == 0
        && counts.files_unchanged == 0
    &&& entry_count(records) <= events.len()
    &&& only is None ==> entry_count(records) == events.len()
    &&& exists|res: Seq<Result<crate::connector::CompactView, PresentationError>>|
        #[trigger] presented_as(registered, presenters, events, parts, only, res, events.len() as int)
            && records_view(
            records,
        ) == grouped(day_items(events, parts, only, res, events.len() as int))
}

/// Whether local parts are an event's date, time of day and heading at some
/// local offset.
pub open spec fn part_fits(part: LocalParts, e: crate::model::EventView) -> bool {
    exists|offset: int|
        -93_599 <= offset <= 93_599 && #[trigger] parts_at(e.occurred_at, offset) == Ok::<
            (Seq<char>, Seq<char>, Seq<char>),
            Seq<char>,
        >((part.date@, part.time@, part.heading@))
}

/// Whether each event's local parts fit it.
pub open spec fn parts_fit(parts: Seq<LocalParts>, events: Seq<Event>) -> bool {
    &&& parts.len() == events.len()
    &&& forall|j: int| 0 <= j < parts.len() ==> part_fits(#[trigger] parts[j], events[j]@)
}

proof fn lemma_day_items_prefix(
    events: Seq<Event>,
    parts: Seq<LocalParts>,
    only: Option<Seq<char>>,
    res1: Seq<Result<crate::connector::CompactView, PresentationError>>,
    res2: Seq<Result<crate::connector::CompactView, PresentationError>>,
    n: int,
)
    requires
        0 <= n,
        forall|j: int| 0 <= j < n ==> res1[j] == res2[j],
    ensures
        day_items(events, parts, only, res1, n) == day_items(events, parts, only, res2, n),
    decreases n,
{
    if n > 0 {
        lemma_day_items_prefix(events, parts, only, res1, res2, n - 1);
    }
}

proof fn lemma_no_entries_no_records(records: Seq<DailyRecord>)
    requires
        entry_count(records) == 0,
        forall|i: int| 0 <= i < records.len() ==> (#[trigger] records[i]@).entries.len() > 0,
    ensures
        records.len() == 0,
{
    if records.len() > 0 {
        assert(records.last()@.entries.len() > 0);
    }
}

proof fn lemma_earlier_count(records: Seq<RecordView>, date: Seq<char>, p: int)
    requires
        0 <= p <= records.len(),
        forall|j: int| 0 <= j < p ==> text_lt(#[trigger] records[j].date, date),
        forall|j: int| p <= j < records.len() ==> !text_lt(#[trigger] records[j].date, date),
    ensures
        earlier_count(records, date) == p,
    decreases records.len(),
{
    if records.len() > 0 {
        let rest = records.drop_last();
        if p == records.len() {
            assert(text_lt(records[p - 1].date, date));
            lemma_earlier_count(rest, date, p - 1);
        } else {
            assert(!text_lt(records[records.len() - 1].date, date));
            lemma_earlier_count(rest, date, p);
        }
    }
}

/// Adds an entry to the record of its date, starting a record with the given
/// heading if the date has none yet; records stay in ascending date order.
pub fn add_entry(
    records: &mut Vec<DailyRecord>,
    date: RecordDate,
    heading: String,
    entry: TimelineEntry,
)
    requires
        dates_ascending(old(records)@),
    ensures
        dates_ascending(final(records)@),
        (exists|i: int| 0 <= i < old(records)@.len() && #[trigger] old(records)@[i]@.date == date@)
            ==> exists|i: int|
            0 <= i < old(records)@.len() && old(records)@[i]@.date == date@ && final(records)@.len()
                == old(records)@.len() && #[trigger] final(records)@[i]@ == (RecordView {
                entries: old(records)@[i]@.entries.push(entry@),
                ..old(records)@[i]@
            }) && forall|j: int|
                0 <= j < old(records)@.len() && j != i ==> final(records)@[j]@ == old(
                    records,
                )@[j]@,
        records_view(final(records)@) == with_entry(records_view(old(records)@), date@, heading@, entry@),
        (forall|i: int| 0 <= i < old(records)@.len() ==> #[trigger] old(records)@[i]@.date != date@)
            ==> exists|p: int|
            0 <= p <= old(records)@.len() && #[trigger] final(records)@.len() == old(records)@.len()
                + 1 && final(records)@[p]@ == new_record(date@, heading@, entry@) && (forall|j: int|
                0 <= j < p ==> final(records)@[j] == old(records)@[j]) && (forall|j: int|
                p < j < final(records)@.len() ==> final(records)@[j] == old(records)@[j - 1]),
{
    let ghost before = records@;
    let ghost k = date@;
    let ghost ev = entry@;
    let ghost hv = heading@;
    let target = crate::text::chars_of(date.as_str());
    let mut p: usize = 0;
    while p < records.len()
        invariant
            p <= records@.len(),
            records@ == before,
            target@ == k,
            dates_ascending(before),
            forall|j: int| 0 <= j < p ==> text_lt(#[trigger] before[j]@.date, k),
        ensures
            p <= records@.len(),
            records@ == before,
            forall|j: int| 0 <= j < p ==> text_lt(#[trigger] before[j]@.date, k),
            p < records@.len() ==> !text_lt(before[p as int]@.date, k),
        decreases records.len() - p,
    {
        let current = crate::text::chars_of(records[p].date.as_str());
        if !crate::text::chars_lt(&current, &target) {
            break;
        }
        p = p + 1;
    }
    if p < records.len() && str_eq(records[p].date.as_str(), date.as_str()) {
        let mut record = records.remove(p);
        let ghost old_record = record@;
        record.entries.push(entry);
        assert(entries_view(record.entries@) =~= old_record.entries.push(entry@));
        records.insert(p, record);
        proof {
            assert forall|j: int| 0 <= j < before.len() && j != p implies records@[j]@ == before[j]@ by {
                if j < p {
                    assert(records@[j] == before[j]);
                } else {
                    assert(records@[j] == before[j]);
                }
            }
            assert forall|a: int, b: int| 0 <= a < b < records@.len() implies text_lt(
                #[trigger] records@[a]@.date,
                #[trigger] records@[b]@.date,
            ) by {
                assert(records@[a]@.date == before[a]@.date);
                assert(records@[b]@.date == before[b]@.date);
            }
            assert(before[p as int]@.date == k);
            assert(records@[p as int]@ == (RecordView {
                entries: before[p as int]@.entries.push(ev),
                ..before[p as int]@
            }));
            assert(records@.len() == before.len());
            let bv = records_view(before);
            assert(bv[p as int].date == k);
            let c = choose|i: int| 0 <= i < bv.len() && (#[trigger] bv[i]).date == k;
            if c != p {
                if c < p {
                    assert(text_lt(before[c]@.date, before[p as int]@.date));
                } else {
                    assert(text_lt(before[p as int]@.date, before[c]@.date));
                }
                crate::text::lemma_text_lt_irreflexive(k);
            }
            assert(records_view(records@) =~= bv.update(
                p as int,
                RecordView { entries: bv[p as int].entries.push(ev), ..bv[p as int] },
            ));
        }
        return;
    }
    proof {
        if p < records@.len() {
            crate::text::lemma_text_lt_total(before[p as int]@.date, k);
        }
        assert forall|j: int| 0 <= j < before.len() implies before[j]@.date != k by {
            if j < p {
                crate::text::lemma_text_lt_irreflexive(k);
            } else {
                if j > p {
                    crate::text::lemma_text_lt_transitive(k, before[p as int]@.date, before[j]@.date);
                }
                crate::text::lemma_text_lt_irreflexive(k);
            }
        }
    }
    let mut entries: Vec<TimelineEntry> = Vec::new();
    entries.push(entry);
    let record = DailyRecord { date, heading, entries };
    assert(entries_view(record.entries@) =~= seq![entry@]);
    records.insert(p, record);
    proof {
        let after = records@;
        assert forall|a: int, b: int| 0 <= a < b < after.len() implies text_lt(
            #[trigger] after[a]@.date,
            #[trigger] after[b]@.date,
        ) by {
            if b < p {
                assert(after[a] == before[a]);
                assert(after[b] == before[b]);
            } else if b == p {
                assert(after[a] == before[a]);
            } else if a < p {
                assert(after[a] == before[a]);
                assert(after[b] == before[b - 1]);
                if b - 1 > p {
                    crate::text::lemma_text_lt_transitive(k, before[p as int]@.date, before[b - 1]@.date);
                }
                crate::text::lemma_text_lt_transitive(before[a]@.date, k, before[b - 1]@.date);
            } else if a == p {
                assert(after[b] == before[b - 1]);
                if b - 1 > p {
                    crate::text::lemma_text_lt_transitive(k, before[p as int]@.date, before[b - 1]@.date);
                }
            } else {
                assert(after[a] == before[a - 1]);
                assert(after[b] == before[b - 1]);
            }
        }
        assert(after[p as int]@ == new_record(k, hv, ev));
        assert(forall|j: int| 0 <= j < p ==> after[j] == before[j]);
        assert(forall|j: int| p < j < after.len() ==> after[j] == before[j - 1]);
        assert(after.len() == before.len() + 1);
        let bv = records_view(before);
        assert forall|j: int| 0 <= j < p implies text_lt(#[trigger] bv[j].date, k) by {
            assert(text_lt(before[j]@.date, k));
        }
        assert forall|j: int| p <= j < bv.len() implies !text_lt(#[trigger] bv[j].date, k) by {
            if j > p {
                crate::text::lemma_text_lt_transitive(k, before[p as int]@.date, before[j]@.date);
                if text_lt(before[j]@.date, k) {
                    crate::text::lemma_text_lt_transitive(k, before[j]@.date, k);
                    crate::text::lemma_text_lt_irreflexive(k);
                }
            }
        }
        lemma_earlier_count(bv, k, p as int);
        assert(!(exists|i: int| 0 <= i < bv.len() && (#[trigger] bv[i]).date == k));
        assert(records_view(after) =~= bv.insert(p as int, new_record(k, hv, ev)));
    }
}

/// What to do with a record's file, given its previous content and whether
/// it exists.
#[derive(Clone, Copy, Debug, Eq, PartialEq, Structural)]
pub enum FileAction {
    /// The file already holds exactly the record.
    Unchanged,
    /// The file does not exist yet and is written.
    Create,
    /// The file holds an older generated record and is replaced.
    Update,
    /// The file was not generated by Schomburg and is left alone.
    Conflict,
}

/// The action for a record file: a readable file without the ownership
/// marker is someone else's; one holding exactly the body is left as it is;
/// otherwise the body is written, creating or updating the file.
pub open spec fn file_action_for(previous: Option<Seq<char>>, exists: bool, body: Seq<char>) -> FileAction {
    match previous {
        Some(text) => if !starts_with(text, record_marker()) {
            FileAction::Conflict
        } else if text == body {
            FileAction::Unchanged
        } else if exists {
            FileAction::Update
        } else {
            FileAction::Create
        },
        None => if exists {
            FileAction::Update
        } else {
            FileAction::Create
        },
    }
}

/// Decides what to do with a record's file.
pub fn file_action(previous: Option<&str>, exists: bool, body: &str) -> (r: FileAction)
    ensures
        r == file_action_for(
            match previous {
                Some(t) => Some(t@),
                None => None,
            },
            exists,
            body@,
        ),
{
    match previous {
        Some(text) => {
            let chars = crate::text::chars_of(text);
            let marker = crate::text::chars_of("<!-- schomburg-record: v1 -->");
            if !crate::scan::has_prefix(&chars, &marker) {
                FileAction::Conflict
            } else if str_eq(text, body) {
                FileAction::Unchanged
            } else if exists {
                FileAction::Update
            } else {
                FileAction::Create
            }
        },
        None => if exists {
            FileAction::Update
        } else {
            FileAction::Create
        },
    }
}

/// Regenerating a record whose file holds exactly what was generated before
/// leaves the file unchanged.
pub proof fn law_regeneration_is_idempotent(r: RecordView, exists: bool)
    ensures
        file_action_for(Some(markdown_text(r)), exists, markdown_text(r)) == FileAction::Unchanged,
{
    law_rendered_records_are_owned(r);
}

/// The files written for records, counted as `record_file` counts them:
/// dates generated, files created, updated and left unchanged.
pub open spec fn action_counts(actions: Seq<FileAction>) -> (nat, nat, nat, nat)
    decreases actions.len(),
{
    if actions.len() == 0 {
        (0, 0, 0, 0)
    } else {
        let (d, c, u, n) = action_counts(actions.drop_last());
        match actions.last() {
            FileAction::Conflict => (d, c, u, n),
            FileAction::Create => (d + 1, c + 1, u, n),
            FileAction::Update => (d + 1, c, u + 1, n),
            FileAction::Unchanged => (d + 1, c, u, n + 1),
        }
    }
}

/// Regenerating records whose files still hold exactly what was generated
/// before leaves every file unchanged: each file's action is `Unchanged`,
/// and the run counts every date as generated and unchanged, with nothing
/// created or updated.
pub proof fn law_regeneration_leaves_files_unchanged(records: Seq<RecordView>, exists: Seq<bool>)
    requires
        exists.len() == records.len(),
    ensures
        ({
            let actions = Seq::new(
                records.len(),
                |k: int| file_action_for(Some(markdown_text(records[k])), exists[k], markdown_text(records[k])),
            );
            &&& forall|k: int| 0 <= k < actions.len() ==> #[trigger] actions[k] == FileAction::Unchanged
            &&& action_counts(actions) == (records.len(), 0nat, 0nat, records.len())
        }),
    decreases records.len(),
{
    let actions = Seq::new(
        records.len(),
        |k: int| file_action_for(Some(markdown_text(records[k])), exists[k], markdown_text(records[k])),
    );
    assert forall|k: int| 0 <= k < actions.len() implies #[trigger] actions[k] == FileAction::Unchanged by {
        law_regeneration_is_idempotent(records[k], exists[k]);
    }
    if records.len() > 0 {
        let n = records.len() - 1;
        law_regeneration_leaves_files_unchanged(records.drop_last(), exists.drop_last());
        let shorter = Seq::new(
            records.drop_last().len(),
            |k: int| file_action_for(
                Some(markdown_text(records.drop_last()[k])),
                exists.drop_last()[k],
                markdown_text(records.drop_last()[k]),
            ),
        );
        assert(actions.drop_last() =~= shorter);
    }
}

/// A record file that does not begin with the ownership marker is never
/// written: its action is `Conflict`, whatever is generated.
pub proof fn law_foreign_files_are_left_alone(text: Seq<char>, exists: bool, body: Seq<char>)
    requires
        !starts_with(text, record_marker()),
    ensures
        file_action_for(Some(text), exists, body) == FileAction::Conflict,
{
}

/// The counts of one record generation run.
#[derive(Clone, Debug, Default, Eq, PartialEq)]
pub struct RecordGenerationResult {
    pub dates_generated: usize,
    pub files_created: usize,
    pub files_updated: usize,
    pub files_unchanged: usize,
    pub events_presented: usize,
    pub presentation_errors: usize,
}

impl RecordGenerationResult {
    /// An empty result.
    pub fn new() -> (r: Self)
        ensures
            r == (RecordGenerationResult {
                dates_generated: 0,
                files_created: 0,
                files_updated: 0,
                files_unchanged: 0,
                events_presented: 0,
                presentation_errors: 0,
            }),
    {
        RecordGenerationResult {
            dates_generated: 0,
            files_created: 0,
            files_updated: 0,
            files_unchanged: 0,
            events_presented: 0,
            presentation_errors: 0,
        }
    }

    /// Counts one record file that was handled: the date is generated, and
    /// the file counts as created, updated or unchanged. A conflict counts
    /// nothing.
    pub fn record_file(&mut self, action: FileAction)
        requires
            old(self).dates_generated < usize::MAX,
            old(self).files_created < usize::MAX,
            old(self).files_updated < usize::MAX,
            old(self).files_unchanged < usize::MAX,
        ensures
            action == FileAction::Conflict ==> *final(self) == *old(self),
            action != FileAction::Conflict ==> final(self).dates_generated == old(self).dates_generated
                + 1,
            final(self).files_created == old(self).files_created + (if action == FileAction::Create {
                1int
            } else {
                0
            }),
            final(self).files_updated == old(self).files_updated + (if action == FileAction::Update {
                1int
            } else {
                0
            }),
            final(self).files_unchanged == old(self).files_unchanged + (if action
                == FileAction::Unchanged {
                1int
            } else {
                0
            }),
            final(self).events_presented == old(self).events_presented,
            final(self).presentation_errors == old(self).presentation_errors,
    {
        match action {
            FileAction::Conflict => {},
            FileAction::Create => {
                self.files_created = self.files_created + 1;
                self.dates_generated = self.dates_generated + 1;
            },
            FileAction::Update => {
                self.files_updated = self.files_updated + 1;
                self.dates_generated = self.dates_generated + 1;
            },
            FileAction::Unchanged => {
                self.files_unchanged = self.files_unchanged + 1;
                self.dates_generated = self.dates_generated + 1;
            },
        }
    }
}

/// The number of entries of records.
pub open spec fn entry_count(records: Seq<DailyRecord>) -> nat
    decreases records.len(),
{
    if records.len() == 0 {
        0
    } else {
        entry_count(records.drop_last()) + records.last()@.entries.len()
    }
}

/// Generates daily records from preserved events through connector-owned
/// presenters.
#[verifier::reject_recursive_types(P)]
pub struct Presenter<P: EventPresenter> {
    registry: PresentationRegistry<P>,
}

impl<P: EventPresenter> Presenter<P> {
    /// The connectors that presenters are registered for.
    pub closed spec fn presented_connectors(&self) -> Seq<Seq<char>> {
        self.registry@
    }

    /// The presenters held, in the order of `presented_connectors`.
    pub closed spec fn presenter_impls(&self) -> Seq<P> {
        self.registry.presenters()
    }

    /// Creates a presenter over a registry of connector presenters.
    pub fn new(registry: PresentationRegistry<P>) -> (r: Self)
        ensures
            r.presented_connectors() == registry@,
            r.presenter_impls() == registry.presenters(),
    {
        Presenter { registry }
    }

    /// Returns the registry of connector presenters.
    pub fn registry(&self) -> (r: &PresentationRegistry<P>)
        ensures
            r@ == self.presented_connectors(),
            r.presenters() == self.presenter_impls(),
    {
        &self.registry
    }

    /// Groups events into daily records by the local date, time of day and
    /// heading given for each, keeping only `only`'s date when given. Each
    /// kept event becomes one entry, in the order of `events`, presented by
    /// its connector's presenter or shown as a presentation error (one whose
    /// connector has no presenter is shown as not found); records come in
    /// ascending date order. It never fails.
    #[verifier::spinoff_prover]
    pub fn group_daily_records(
        &self,
        events: &Vec<Event>,
        parts: &Vec<LocalParts>,
        only: Option<&RecordDate>,
    ) -> (r: (Vec<DailyRecord>, RecordGenerationResult))
        requires
            parts@.len() == events@.len(),
            events@.len() < usize::MAX,
        ensures
            daily_grouping(
                self.presented_connectors(),
                self.presenter_impls(),
                events@,
                parts@,
                only_view(only),
                r.0@,
                r.1,
            ),
    {
        let mut records: Vec<DailyRecord> = Vec::new();
        let mut counts = RecordGenerationResult::new();
        let ghost mut res: Seq<Result<crate::connector::CompactView, PresentationError>> = Seq::empty();
        let ghost wanted = only_view(only);
        let ghost registered = self.presented_connectors();
        let ghost presenters = self.presenter_impls();
        let mut i: usize = 0;
        while i < events.len()
            invariant
                i <= events@.len(),
                events@.len() < usize::MAX,
                parts@.len() == events@.len(),
                dates_ascending(records@),
                forall|j: int| 0 <= j < records@.len() ==> (#[trigger] records@[j]@).entries.len() > 0,
                only matches Some(d) ==> forall|j: int|
                    0 <= j < records@.len() ==> (#[trigger] records@[j]@).date == d@,
                counts.events_presented + counts.presentation_errors == entry_count(records@),
                entry_count(records@) <= i,
                only is None ==> entry_count(records@) == i,
                wanted == only_view(only),
                registered == self.presented_connectors(),
                presenters == self.presenter_impls(),
                res.len() == i,
                presented_as(registered, presenters, events@, parts@, wanted, res, i as int),
                records_view(records@) == grouped(day_items(events@, parts@, wanted, res, i as int)),
                counts.dates_generated == 0 && counts.files_created == 0 && counts.files_updated == 0
                    && counts.files_unchanged == 0,
            decreases events.len() - i,
        {
            let event = &events[i];
            let part = &parts[i];
            let keep = match only {
                Some(d) => str_eq(d.as_str(), part.date.as_str()),
                None => true,
            };
            let ghost before_items = day_items(events@, parts@, wanted, res, i as int);
            if !keep {
                proof {
                    let res2 = res.push(vstd::pervasive::arbitrary());
                    lemma_day_items_prefix(events@, parts@, wanted, res, res2, i as int);
                    assert forall|j: int|
                        0 <= j < i + 1 && kept(parts@[j].date@, wanted) implies routed_compact(
                        registered,
                        presenters,
                        events@[j]@,
                        #[trigger] res2[j],
                    ) by {
                        assert(res2[j] == res[j]);
                    }
                    res = res2;
                }
            } else {
                let presented = self.registry.present_compact(event);
                let ghost result = crate::connector::compact_outcome(presented);
                let succeeded = presented.is_ok();
                let entry = entry_from_presentation(presented, crate::text::owned(part.time.as_str()), event);
                let ghost item = (part.date@, part.heading@, entry@);
                if succeeded {
                    counts.events_presented = counts.events_presented + 1;
                } else {
                    counts.presentation_errors = counts.presentation_errors + 1;
                }
                let ghost before = records@;
                let ghost k = part.date@;
                add_entry(&mut records, part.date.duplicate(), crate::text::owned(part.heading.as_str()), entry);
                proof {
                    let e = events@[i as int]@;
                    assert(entry_from(result, part.time@, e.source.connector_id) == item.2);
                    let res2 = res.push(result);
                    lemma_day_items_prefix(events@, parts@, wanted, res, res2, i as int);
                    assert(routed_compact(registered, presenters, e, result));
                    assert forall|j: int|
                        0 <= j < i + 1 && kept(parts@[j].date@, wanted) implies routed_compact(
                        registered,
                        presenters,
                        events@[j]@,
                        #[trigger] res2[j],
                    ) by {
                        if j < i {
                            assert(res2[j] == res[j]);
                        }
                    }
                    let items2 = before_items.push(item);
                    assert(day_items(events@, parts@, wanted, res2, i + 1) == items2);
                    assert(items2.drop_last() =~= before_items);
                    assert(grouped(items2) == with_entry(grouped(before_items), item.0, item.1, item.2));
                    res = res2;
                }
                proof {
                    let after = records@;
                    if exists|j: int| 0 <= j < before.len() && #[trigger] before[j]@.date == k {
                        let j = choose|j: int|
                            0 <= j < before.len() && before[j]@.date == k && after.len() == before.len()
                                && #[trigger] after[j]@ == (RecordView {
                                entries: before[j]@.entries.push(entry_view_of(after, j)),
                                ..before[j]@
                            }) && forall|m: int|
                                0 <= m < before.len() && m != j ==> after[m]@ == before[m]@;
                        lemma_entry_count_grown(before, after, j);
                    } else {
                        let p = choose|p: int|
                            0 <= p <= before.len() && #[trigger] after.len() == before.len() + 1
                                && after[p]@.entries.len() == 1 && (forall|m: int|
                                0 <= m < p ==> after[m] == before[m]) && (forall|m: int|
                                p < m < after.len() ==> after[m] == before[m - 1]);
                        lemma_entry_count_inserted(before, after, p);
                    }
                }
            }
            i = i + 1;
        }
        (records, counts)
    }

    /// Groups events into daily records by their local date, keeping only
    /// `only`'s date when given. Each event's local date, time of day and
    /// heading are looked up at the system's local offset; a failed lookup
    /// is a time error. The records are then what `group_daily_records`
    /// makes of those parts.
    pub fn daily_records(&self, events: &Vec<Event>, only: Option<&RecordDate>) -> (r: Result<
        (Vec<DailyRecord>, RecordGenerationResult),
        PresenterError,
    >)
        requires
            forall|i: int| 0 <= i < events@.len() ==> presentable_time(#[trigger] events@[i]@.occurred_at),
            events@.len() < usize::MAX,
        ensures
            r matches Ok((records, counts)) ==> exists|parts: Seq<LocalParts>|
                #[trigger] parts_fit(parts, events@) && daily_grouping(
                    self.presented_connectors(),
                    self.presenter_impls(),
                    events@,
                    parts,
                    only_view(only),
                    records@,
                    counts,
                ),
            r matches Err(e) ==> e is Time,
            events@.len() == 0 ==> (r matches Ok((records, _)) && records@.len() == 0),
    {
        let mut parts: Vec<LocalParts> = Vec::new();
        let mut i: usize = 0;
        while i < events.len()
            invariant
                i <= events@.len(),
                parts@.len() == i,
                forall|j: int| 0 <= j < events@.len() ==> presentable_time(#[trigger] events@[j]@.occurred_at),
                forall|j: int| 0 <= j < i ==> part_fits(#[trigger] parts@[j], events@[j]@),
            decreases events.len() - i,
        {
            let part = match local_parts(events[i].occurred_at().as_system_time()) {
                Ok(p) => p,
                Err(e) => return Err(e),
            };
            parts.push(part);
            i = i + 1;
        }
        let (records, counts) = self.group_daily_records(events, &parts, only);
        proof {
            assert(parts_fit(parts@, events@));
            if events@.len() == 0 {
                assert(entry_count(records@) == 0);
                lemma_no_entries_no_records(records@);
            }
        }
        Ok((records, counts))
    }
}

/// The entry appended last to a record.
pub open spec fn entry_view_of(records: Seq<DailyRecord>, i: int) -> EntryView {
    records[i]@.entries.last()
}

proof fn lemma_entry_count_same(a: Seq<DailyRecord>, b: Seq<DailyRecord>)
    requires
        a.len() == b.len(),
        forall|j: int| 0 <= j < a.len() ==> (#[trigger] a[j]@).entries.len() == b[j]@.entries.len(),
    ensures
        entry_count(a) == entry_count(b),
    decreases a.len(),
{
    if a.len() > 0 {
        lemma_entry_count_same(a.drop_last(), b.drop_last());
    }
}

proof fn lemma_entry_count_grown(a: Seq<DailyRecord>, b: Seq<DailyRecord>, i: int)
    requires
        0 <= i < a.len(),
        a.len() == b.len(),
        b[i]@.entries.len() == a[i]@.entries.len() + 1,
        forall|j: int| 0 <= j < a.len() && j != i ==> (#[trigger] b[j]@) == a[j]@,
    ensures
        entry_count(b) == entry_count(a) + 1,
    decreases a.len(),
{
    if i == a.len() - 1 {
        assert forall|j: int| 0 <= j < a.drop_last().len() implies (#[trigger] a.drop_last()[j]@).entries.len()
            == b.drop_last()[j]@.entries.len() by {
            assert(b[j]@ == a[j]@);
        }
        lemma_entry_count_same(a.drop_last(), b.drop_last());
    } else {
        assert(b.last()@ == a.last()@);
        assert forall|j: int| 0 <= j < a.drop_last().len() && j != i implies (#[trigger] b.drop_last()[j]@)
            == a.drop_last()[j]@ by {
            assert(b[j]@ == a[j]@);
        }
        lemma_entry_count_grown(a.drop_last(), b.drop_last(), i);
    }
}

proof fn lemma_entry_count_inserted(a: Seq<DailyRecord>, b: Seq<DailyRecord>, p: int)
    requires
        0 <= p <= a.len(),
        b.len() == a.len() + 1,
        b[p]@.entries.len() == 1,
        forall|m: int| 0 <= m < p ==> b[m] == a[m],
        forall|m: int| p < m < b.len() ==> b[m] == a[m - 1],
    ensures
        entry_count(b) == entry_count(a) + 1,
    decreases b.len(),
{
    if p == a.len() {
        assert(b.drop_last() =~= a);
    } else {
        assert(b.last() == a.last());
        lemma_entry_count_inserted(a.drop_last(), b.drop_last(), p);
    }
}

} // verus!
