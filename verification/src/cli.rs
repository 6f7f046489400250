//! The command line's words: how arguments become a command, and the text
//! that each command prints.

use crate::agent::{agent_error_text, AgentError};
use crate::clock::{format_local, local_offset_seconds, local_time_text, presentable_time};
use crate::connector::{
    fields_view, EventPresenter, PresentationRegistry, CompactPresentation, CompactView, DetailedPresentation, DetailedView, FieldView,
    PresentationField,
};
use crate::git::hex_text;
use crate::model::{Event, EventView, UnixTime};
use crate::text::decimal_text;
use crate::connector::{presentation_error_text, PresentationError};
use crate::engine::{engine_error_text, EngineError};
use crate::git::{git_error_text, GitConnectorError};
use crate::agent::CollectionCycleReport;
use crate::git::{GitImportReport, ImportCounts};
use crate::operations::{
    ConnectionId, ConnectionRecord, ConnectionStatus, ConnectionView, DiscoveredSource,
    DiscoveryStatus, MonitoringPolicy, SourceRecordView,
};
use crate::scan::starts_with;
use crate::store::{store_error_text, StoreError};
use crate::text::push_str;
use vstd::prelude::*;

verus! {

/// Errors returned by the command line.
#[derive(Debug)]
pub enum CliError {
    /// The command shape is not supported.
    Usage(String),
    /// An option was provided without a value.
    MissingOptionValue(String),
    /// A required explicit option was omitted.
    MissingRequiredOption(String),
    /// The supplied event ID cannot identify an event.
    InvalidEventId(String),
    /// No event exists with the requested identifier.
    EventNotFound(String),
    /// The database parent directory could not be created.
    DatabasePath { path: String, message: String },
    /// The store could not open or read the database.
    Store(StoreError),
    /// The Git connector could not open or import the repository.
    Git(GitConnectorError),
    /// The engine could not register or collect the connector.
    Engine(EngineError),
    /// The connector did not make an import report available.
    MissingImportReport,
    /// Agent discovery or collection failed.
    Agent(AgentError),
    /// Connector-owned presentation could not render stored factual evidence.
    Presentation(PresentationError),
    /// A stored timestamp could not be formatted in the local timezone.
    Timestamp { message: String },
}

/// The text of a string as Rust's `Debug` formatting writes it: quoted, with
/// special characters escaped.
pub uninterp spec fn debug_quoted(s: Seq<char>) -> Seq<char>;

/// Writes a string as `format!("{:?}")` does.
///
/// Claimed: the result is `debug_quoted` of the string.
#[verifier::external_body]
fn quoted(s: &str) -> (r: String)
    ensures
        r@ == debug_quoted(s@),
{
    format!("{:?}", s)
}

/// The message that describes a command-line error.
pub open spec fn cli_error_text(e: CliError) -> Seq<char> {
    match e {
        CliError::Usage(value) => value@,
        CliError::MissingOptionValue(option) => "missing value for "@ + option@,
        CliError::MissingRequiredOption(option) => "missing required --"@ + option@,
        CliError::InvalidEventId(id) => "invalid EventId: "@ + debug_quoted(id@),
        CliError::EventNotFound(id) => "event not found: "@ + id@,
        CliError::DatabasePath { path, message } => "cannot create database directory "@ + path@
            + ": "@ + message@,
        CliError::Store(error) => "database error: "@ + store_error_text(error),
        CliError::Git(error) => "Git import error: "@ + git_error_text(error),
        CliError::Engine(error) => "connector error: "@ + engine_error_text(error),
        CliError::MissingImportReport => "Git import completed without a report"@,
        CliError::Agent(error) => "agent error: "@ + agent_error_text(error),
        CliError::Presentation(error) => "presentation error: "@ + presentation_error_text(error),
        CliError::Timestamp { message } => "timestamp formatting error: "@ + message@,
    }
}

impl CliError {
    /// Describes the error for a person.
    pub fn message(&self) -> (r: String)
        ensures
            r@ == cli_error_text(*self),
    {
        let mut s = String::new();
        match self {
            CliError::Usage(value) => push_str(&mut s, value.as_str()),
            CliError::MissingOptionValue(option) => {
                push_str(&mut s, "missing value for ");
                push_str(&mut s, option.as_str());
            },
            CliError::MissingRequiredOption(option) => {
                push_str(&mut s, "missing required --");
                push_str(&mut s, option.as_str());
            },
            CliError::InvalidEventId(id) => {
                push_str(&mut s, "invalid EventId: ");
                let q = quoted(id.as_str());
                push_str(&mut s, q.as_str());
            },
            CliError::EventNotFound(id) => {
                push_str(&mut s, "event not found: ");
                push_str(&mut s, id.as_str());
            },
            CliError::DatabasePath { path, message } => {
                push_str(&mut s, "cannot create database directory ");
                push_str(&mut s, path.as_str());
                push_str(&mut s, ": ");
                push_str(&mut s, message.as_str());
            },
            CliError::Store(error) => {
                push_str(&mut s, "database error: ");
                let m = error.message();
                push_str(&mut s, m.as_str());
            },
            CliError::Git(error) => {
                push_str(&mut s, "Git import error: ");
                let m = error.message();
                push_str(&mut s, m.as_str());
            },
            CliError::Engine(error) => {
                push_str(&mut s, "connector error: ");
                let m = error.message();
                push_str(&mut s, m.as_str());
            },
            CliError::MissingImportReport => {
                push_str(&mut s, "Git import completed without a report");
            },
            CliError::Agent(error) => {
                push_str(&mut s, "agent error: ");
                let m = error.message();
                push_str(&mut s, m.as_str());
            },
            CliError::Presentation(error) => {
                push_str(&mut s, "presentation error: ");
                let m = error.message();
                push_str(&mut s, m.as_str());
            },
            CliError::Timestamp { message } => {
                push_str(&mut s, "timestamp formatting error: ");
                push_str(&mut s, message.as_str());
            },
        }
        s
    }
}

/// The usage text.
pub open spec fn usage_text() -> Seq<char> {
    "usage:\n  schomburg init --db <database-path>\n  schomburg discover --root <path> --db <database-path>\n  schomburg sources --db <database-path>\n  schomburg connect|decline <source-id> --db <database-path>\n  schomburg connections --db <database-path>\n  schomburg pause|resume|disconnect <connection-id> --db <database-path>\n  schomburg collect --db <database-path>\n  schomburg events --db <database-path> [--raw]\n  schomburg event <event-id> --db <database-path> [--raw]\n  schomburg import git --repo <repository-path> --db <database-path>\n"@
}

/// Returns the usage text.
pub fn usage() -> (r: &'static str)
    ensures
        r@ == usage_text(),
{
    "usage:\n  schomburg init --db <database-path>\n  schomburg discover --root <path> --db <database-path>\n  schomburg sources --db <database-path>\n  schomburg connect|decline <source-id> --db <database-path>\n  schomburg connections --db <database-path>\n  schomburg pause|resume|disconnect <connection-id> --db <database-path>\n  schomburg collect --db <database-path>\n  schomburg events --db <database-path> [--raw]\n  schomburg event <event-id> --db <database-path> [--raw]\n  schomburg import git --repo <repository-path> --db <database-path>\n"
}

/// The error for an unsupported command shape.
pub fn usage_error() -> (r: CliError)
    ensures
        r matches CliError::Usage(u) && u@ == usage_text(),
{
    CliError::Usage(usage().to_owned())
}

/// What goes wrong when reading arguments, before anything is opened.
pub enum ArgumentFailure {
    Usage,
    MissingValue(Seq<char>),
    MissingRequired(Seq<char>),
    InvalidEventId(Seq<char>),
}

/// Whether a command-line error is the one an argument failure describes.
pub open spec fn reports(e: CliError, f: ArgumentFailure) -> bool {
    match f {
        ArgumentFailure::Usage => e matches CliError::Usage(u) && u@ == usage_text(),
        ArgumentFailure::MissingValue(flag) => e matches CliError::MissingOptionValue(v) && v@
            == flag,
        ArgumentFailure::MissingRequired(name) => e matches CliError::MissingRequiredOption(v) && v@
            == name,
        ArgumentFailure::InvalidEventId(id) => e matches CliError::InvalidEventId(v) && v@ == id,
    }
}

/// A flag with every leading `--` removed.
pub open spec fn option_name(flag: Seq<char>) -> Seq<char>
    decreases flag.len(),
{
    if flag.len() >= 2 && starts_with(flag, "--"@) {
        option_name(flag.skip(2))
    } else {
        flag
    }
}

/// Whether `options` names `name`.
pub open spec fn names(options: Seq<(Seq<char>, Seq<char>)>, name: Seq<char>) -> bool {
    exists|i: int| 0 <= i < options.len() && (#[trigger] options[i]).0 == name
}

/// The options of `--name value` pairs read after `parsed`, each name
/// allowed and given once, in the order given.
pub open spec fn options_after(
    args: Seq<Seq<char>>,
    allowed: Seq<Seq<char>>,
    parsed: Seq<(Seq<char>, Seq<char>)>,
) -> Result<Seq<(Seq<char>, Seq<char>)>, ArgumentFailure>
    decreases args.len(),
{
    if args.len() == 0 {
        Ok(parsed)
    } else if !starts_with(args[0], "--"@) {
        Err(ArgumentFailure::Usage)
    } else if args.len() < 2 {
        Err(ArgumentFailure::MissingValue(args[0]))
    } else {
        let name = option_name(args[0]);
        if name.len() == 0 || !allowed.contains(name) || names(parsed, name) {
            Err(ArgumentFailure::Usage)
        } else {
            options_after(args.skip(2), allowed, parsed.push((name, args[1])))
        }
    }
}

/// The options that arguments give.
pub open spec fn parsed_options(args: Seq<Seq<char>>, allowed: Seq<Seq<char>>) -> Result<
    Seq<(Seq<char>, Seq<char>)>,
    ArgumentFailure,
> {
    options_after(args, allowed, Seq::empty())
}

/// The views of argument strings.
pub open spec fn texts(args: Seq<String>) -> Seq<Seq<char>> {
    args.map_values(|a: String| a@)
}

/// The views of option names.
pub open spec fn name_texts(names: Seq<&str>) -> Seq<Seq<char>> {
    names.map_values(|a: &str| a@)
}

/// The views of parsed options.
pub open spec fn options_view(options: Seq<(String, String)>) -> Seq<(Seq<char>, Seq<char>)> {
    options.map_values(|p: (String, String)| (p.0@, p.1@))
}

/// Returns a flag's name with every leading `--` removed.
fn strip_dashes(flag: &str) -> (r: String)
    ensures
        r@ == option_name(flag@),
{
    let chars = crate::text::chars_of(flag);
    let mut start: usize = 0;
    assert(flag@.skip(0) =~= flag@);
    while start < chars.len() && chars.len() - start >= 2 && chars[start] == '-' && chars[start
        + 1] == '-'
        invariant
            start <= chars@.len(),
            chars@ == flag@,
            option_name(flag@) == option_name(flag@.skip(start as int)),
        decreases chars.len() - start,
    {
        proof {
            let rest = flag@.skip(start as int);
            assert(rest.len() >= 2);
            assert(rest.subrange(0, 2) =~= "--"@) by {
                reveal_strlit("--");
            }
            assert(rest.skip(2) =~= flag@.skip(start + 2));
        }
        start = start + 2;
    }
    proof {
        let rest = flag@.skip(start as int);
        reveal_strlit("--");
        if rest.len() >= 2 {
            assert(!(rest[0] == '-' && rest[1] == '-'));
            assert(!(rest.subrange(0, 2) =~= "--"@)) by {
                if rest.subrange(0, 2) =~= "--"@ {
                    assert(rest.subrange(0, 2)[0] == rest[0]);
                    assert(rest.subrange(0, 2)[1] == rest[1]);
                }
            }
        }
    }
    crate::scan::chars_to_string(&crate::scan::slice_chars(&chars, start, chars.len()))
}

/// Whether an option name is one of the allowed names.
fn is_allowed(name: &str, allowed: &[&str]) -> (r: bool)
    ensures
        r == name_texts(allowed@).contains(name@),
{
    let mut i: usize = 0;
    while i < allowed.len()
        invariant
            i <= allowed@.len(),
            forall|j: int| 0 <= j < i ==> (#[trigger] allowed@[j])@ != name@,
        decreases allowed.len() - i,
    {
        if crate::text::str_eq(allowed[i], name) {
            assert(name_texts(allowed@)[i as int] == name@);
            return true;
        }
        i = i + 1;
    }
    assert forall|j: int| 0 <= j < name_texts(allowed@).len() implies name_texts(allowed@)[j]
        != name@ by {
        assert(name_texts(allowed@)[j] == allowed@[j]@);
    }
    false
}

/// Whether parsed options already name `name`.
fn is_named(options: &Vec<(String, String)>, name: &str) -> (r: bool)
    ensures
        r == names(options_view(options@), name@),
{
    let mut i: usize = 0;
    while i < options.len()
        invariant
            i <= options@.len(),
            forall|j: int| 0 <= j < i ==> (#[trigger] options@[j]).0@ != name@,
        decreases options.len() - i,
    {
        if crate::text::str_eq(options[i].0.as_str(), name) {
            assert(options_view(options@)[i as int].0 == name@);
            return true;
        }
        i = i + 1;
    }
    assert forall|j: int| 0 <= j < options_view(options@).len() implies (#[trigger] options_view(
        options@,
    )[j]).0 != name@ by {
        assert(options_view(options@)[j].0 == options@[j].0@);
    }
    false
}

/// Reads `--name value` pairs, each name among `allowed_options` and given
/// once, in the order given.
pub fn parse_options(arguments: &[String], allowed_options: &[&str]) -> (r: Result<
    Vec<(String, String)>,
    CliError,
>)
    ensures
        match parsed_options(texts(arguments@), name_texts(allowed_options@)) {
            Ok(options) => r matches Ok(v) && options_view(v@) == options,
            Err(f) => r matches Err(e) && reports(e, f),
        },
{
    let ghost args = texts(arguments@);
    let ghost allowed = name_texts(allowed_options@);
    let mut options: Vec<(String, String)> = Vec::new();
    let mut index: usize = 0;
    assert(args.skip(0) =~= args);
    assert(options_view(options@) =~= Seq::<(Seq<char>, Seq<char>)>::empty());
    while index < arguments.len()
        invariant
            index <= arguments@.len(),
            args == texts(arguments@),
            allowed == name_texts(allowed_options@),
            parsed_options(args, allowed) == options_after(
                args.skip(index as int),
                allowed,
                options_view(options@),
            ),
        decreases arguments.len() - index,
    {
        let ghost rest = args.skip(index as int);
        let flag = &arguments[index];
        assert(rest[0] == flag@);
        if !crate::scan::has_prefix(&crate::text::chars_of(flag.as_str()), &crate::text::chars_of("--")) {
            return Err(usage_error());
        }
        if index + 1 >= arguments.len() {
            return Err(CliError::MissingOptionValue(flag.clone()));
        }
        let value = &arguments[index + 1];
        assert(rest[1] == value@);
        let name = strip_dashes(flag.as_str());
        if crate::text::chars_of(name.as_str()).len() == 0 || !is_allowed(name.as_str(), allowed_options) || is_named(&options, name.as_str()) {
            return Err(usage_error());
        }
        let ghost before = options_view(options@);
        options.push((name, value.clone()));
        proof {
            assert(options_view(options@) =~= before.push((option_name(flag@), value@)));
            assert(rest.skip(2) =~= args.skip(index + 2));
        }
        index = index + 2;
    }
    proof {
        assert(args.skip(index as int) =~= Seq::<Seq<char>>::empty());
    }
    Ok(options)
}

/// The value given for an option, if any: the first pair with the name.
pub open spec fn option_value(options: Seq<(Seq<char>, Seq<char>)>, name: Seq<char>) -> Option<
    Seq<char>,
> {
    if names(options, name) {
        Some(options[choose|i: int| 0 <= i < options.len() && (#[trigger] options[i]).0 == name].1)
    } else {
        None
    }
}

/// The value of a required option: given and not empty.
pub open spec fn required_value(options: Seq<(Seq<char>, Seq<char>)>, name: Seq<char>) -> Result<
    Seq<char>,
    ArgumentFailure,
> {
    match option_value(options, name) {
        Some(v) => if v.len() > 0 {
            Ok(v)
        } else {
            Err(ArgumentFailure::MissingRequired(name))
        },
        None => Err(ArgumentFailure::MissingRequired(name)),
    }
}

/// Returns the value of a required option, which must be given and not
/// empty. Parsed options name each option once.
pub fn required_option(options: &Vec<(String, String)>, name: &str) -> (r: Result<String, CliError>)
    requires
        forall|i: int, j: int|
            0 <= i < j < options@.len() ==> (#[trigger] options@[i]).0@ != (
            #[trigger] options@[j]).0@,
    ensures
        match required_value(options_view(options@), name@) {
            Ok(v) => r matches Ok(s) && s@ == v,
            Err(f) => r matches Err(e) && reports(e, f),
        },
{
    let ghost view = options_view(options@);
    let mut i: usize = 0;
    while i < options.len()
        invariant
            i <= options@.len(),
            view == options_view(options@),
            forall|j: int| 0 <= j < i ==> (#[trigger] options@[j]).0@ != name@,
            forall|a: int, b: int|
                0 <= a < b < options@.len() ==> (#[trigger] options@[a]).0@ != (
                #[trigger] options@[b]).0@,
        decreases options.len() - i,
    {
        if crate::text::str_eq(options[i].0.as_str(), name) {
            proof {
                assert(view[i as int].0 == name@);
                let c = choose|c: int| 0 <= c < view.len() && (#[trigger] view[c]).0 == name@;
                if c != i {
                    assert(view[c].0 == options@[c].0@);
                    if c < i {
                        assert(options@[c].0@ != name@);
                    } else {
                        assert(options@[i as int].0@ != options@[c].0@);
                    }
                }
            }
            if crate::text::chars_of(options[i].1.as_str()).len() == 0 {
                return Err(CliError::MissingRequiredOption(name.to_owned()));
            }
            return Ok(options[i].1.clone());
        }
        i = i + 1;
    }
    proof {
        assert forall|j: int| 0 <= j < view.len() implies (#[trigger] view[j]).0 != name@ by {
            assert(view[j].0 == options@[j].0@);
        }
    }
    Err(CliError::MissingRequiredOption(name.to_owned()))
}

/// The `--raw` flag and the other arguments, in order; the flag may be
/// given once.
pub open spec fn raw_split(args: Seq<Seq<char>>, raw: bool, rest: Seq<Seq<char>>) -> Result<
    (bool, Seq<Seq<char>>),
    ArgumentFailure,
>
    decreases args.len(),
{
    if args.len() == 0 {
        Ok((raw, rest))
    } else if args[0] == "--raw"@ {
        if raw {
            Err(ArgumentFailure::Usage)
        } else {
            raw_split(args.skip(1), true, rest)
        }
    } else {
        raw_split(args.skip(1), raw, rest.push(args[0]))
    }
}

/// The option names of commands that take only a database.
pub open spec fn db_names() -> Seq<Seq<char>> {
    seq!["db"@]
}

/// Whether the arguments of a presenting command ask for raw output, and
/// the options they give.
pub open spec fn presentation_options(args: Seq<Seq<char>>) -> Result<
    (bool, Seq<(Seq<char>, Seq<char>)>),
    ArgumentFailure,
> {
    match raw_split(args, false, Seq::empty()) {
        Err(f) => Err(f),
        Ok((raw, rest)) => match parsed_options(rest, db_names()) {
            Err(f) => Err(f),
            Ok(o) => Ok((raw, o)),
        },
    }
}

/// Returns a list holding the option name `db`.
fn db_only() -> (r: Vec<&'static str>)
    ensures
        name_texts(r@) == db_names(),
{
    let mut v: Vec<&'static str> = Vec::new();
    v.push("db");
    assert(name_texts(v@) =~= db_names());
    v
}

/// Returns a list of two option names.
fn two_names(a: &'static str, b: &'static str) -> (r: Vec<&'static str>)
    ensures
        name_texts(r@) == seq![a@, b@],
{
    let mut v: Vec<&'static str> = Vec::new();
    v.push(a);
    v.push(b);
    assert(name_texts(v@) =~= seq![a@, b@]);
    v
}

/// Whether an argument is a given word.
fn is_word(argument: &String, word: &str) -> (r: bool)
    ensures
        r == (argument@ == word@),
{
    crate::text::str_eq(argument.as_str(), word)
}

/// Splits off the `--raw` flag of a presenting command and reads its
/// database option.
pub fn parse_presentation_options(arguments: &[String]) -> (r: Result<
    (bool, Vec<(String, String)>),
    CliError,
>)
    ensures
        match presentation_options(texts(arguments@)) {
            Ok((raw, options)) => r matches Ok((b, v)) && b == raw && options_view(v@) == options,
            Err(f) => r matches Err(e) && reports(e, f),
        },
{
    let ghost args = texts(arguments@);
    let mut raw = false;
    let mut value_options: Vec<String> = Vec::new();
    let mut i: usize = 0;
    assert(args.skip(0) =~= args);
    assert(texts(value_options@) =~= Seq::<Seq<char>>::empty());
    while i < arguments.len()
        invariant
            i <= arguments@.len(),
            args == texts(arguments@),
            raw_split(args, false, Seq::empty()) == raw_split(
                args.skip(i as int),
                raw,
                texts(value_options@),
            ),
        decreases arguments.len() - i,
    {
        let ghost rest = args.skip(i as int);
        assert(rest[0] == arguments@[i as int]@);
        assert(rest.skip(1) =~= args.skip(i + 1));
        if is_word(&arguments[i], "--raw") {
            if raw {
                return Err(usage_error());
            }
            raw = true;
        } else {
            let ghost before = texts(value_options@);
            value_options.push(arguments[i].clone());
            assert(texts(value_options@) =~= before.push(arguments@[i as int]@));
        }
        i = i + 1;
    }
    assert(args.skip(i as int) =~= Seq::<Seq<char>>::empty());
    let allowed = db_only();
    match parse_options(value_options.as_slice(), allowed.as_slice()) {
        Ok(options) => Ok((raw, options)),
        Err(e) => Err(e),
    }
}

/// A command read from the arguments, with what it needs before anything
/// is opened.
#[derive(Debug)]
pub enum CliCommand {
    Init { db: String },
    ImportGit { repo: String, db: String },
    Events { raw: bool, db: String },
    Event { id: String, raw: bool, db: String },
    /// The scan root is required only once the database is open.
    Discover { options: Vec<(String, String)>, db: String },
    Sources { db: String },
    SourceAction { id: String, approve: bool, db: String },
    Connections { db: String },
    ConnectionAction { id: String, status: ConnectionStatus, db: String },
    Collect { db: String },
}

/// The mathematical content of a [`CliCommand`].
pub enum CommandView {
    Init { db: Seq<char> },
    ImportGit { repo: Seq<char>, db: Seq<char> },
    Events { raw: bool, db: Seq<char> },
    Event { id: Seq<char>, raw: bool, db: Seq<char> },
    Discover { options: Seq<(Seq<char>, Seq<char>)>, db: Seq<char> },
    Sources { db: Seq<char> },
    SourceAction { id: Seq<char>, approve: bool, db: Seq<char> },
    Connections { db: Seq<char> },
    ConnectionAction { id: Seq<char>, status: ConnectionStatus, db: Seq<char> },
    Collect { db: Seq<char> },
}

impl View for CliCommand {
    type V = CommandView;

    open spec fn view(&self) -> CommandView {
        match self {
            CliCommand::Init { db } => CommandView::Init { db: db@ },
            CliCommand::ImportGit { repo, db } => CommandView::ImportGit { repo: repo@, db: db@ },
            CliCommand::Events { raw, db } => CommandView::Events { raw: *raw, db: db@ },
            CliCommand::Event { id, raw, db } => CommandView::Event { id: id@, raw: *raw, db: db@ },
            CliCommand::Discover { options, db } => CommandView::Discover {
                options: options_view(options@),
                db: db@,
            },
            CliCommand::Sources { db } => CommandView::Sources { db: db@ },
            CliCommand::SourceAction { id, approve, db } => CommandView::SourceAction {
                id: id@,
                approve: *approve,
                db: db@,
            },
            CliCommand::Connections { db } => CommandView::Connections { db: db@ },
            CliCommand::ConnectionAction { id, status, db } => CommandView::ConnectionAction {
                id: id@,
                status: *status,
                db: db@,
            },
            CliCommand::Collect { db } => CommandView::Collect { db: db@ },
        }
    }
}

/// The database option of parsed options, and the command it completes.
pub open spec fn with_db(
    options: Result<Seq<(Seq<char>, Seq<char>)>, ArgumentFailure>,
    make: spec_fn(Seq<char>) -> CommandView,
) -> Result<CommandView, ArgumentFailure> {
    match options {
        Err(f) => Err(f),
        Ok(o) => match required_value(o, "db"@) {
            Err(f) => Err(f),
            Ok(db) => Ok(make(db)),
        },
    }
}

/// The status a connection word asks for.
pub open spec fn status_word(w: Seq<char>) -> Option<ConnectionStatus> {
    if w == "pause"@ {
        Some(ConnectionStatus::Paused)
    } else if w == "resume"@ {
        Some(ConnectionStatus::Enabled)
    } else if w == "disconnect"@ {
        Some(ConnectionStatus::Disconnected)
    } else {
        None
    }
}

/// The command that arguments give, or what is wrong with them.
pub open spec fn command_from(args: Seq<Seq<char>>) -> Result<CommandView, ArgumentFailure> {
    if args.len() == 0 {
        Err(ArgumentFailure::Usage)
    } else {
        let w = args[0];
        let rest = args.skip(1);
        if w == "init"@ {
            with_db(parsed_options(rest, db_names()), |db: Seq<char>| CommandView::Init { db })
        } else if w == "import"@ {
            if rest.len() == 0 || rest[0] != "git"@ {
                Err(ArgumentFailure::Usage)
            } else {
                match parsed_options(rest.skip(1), seq!["repo"@, "db"@]) {
                    Err(f) => Err(f),
                    Ok(o) => match required_value(o, "repo"@) {
                        Err(f) => Err(f),
                        Ok(repo) => match required_value(o, "db"@) {
                            Err(f) => Err(f),
                            Ok(db) => Ok(CommandView::ImportGit { repo, db }),
                        },
                    },
                }
            }
        } else if w == "events"@ {
            match presentation_options(rest) {
                Err(f) => Err(f),
                Ok((raw, o)) => with_db(Ok(o), |db: Seq<char>| CommandView::Events { raw, db }),
            }
        } else if w == "event"@ {
            if rest.len() == 0 {
                Err(ArgumentFailure::Usage)
            } else if rest[0].len() == 0 || starts_with(rest[0], "--"@) {
                Err(ArgumentFailure::InvalidEventId(rest[0]))
            } else {
                match presentation_options(rest.skip(1)) {
                    Err(f) => Err(f),
                    Ok((raw, o)) => with_db(
                        Ok(o),
                        |db: Seq<char>| CommandView::Event { id: rest[0], raw, db },
                    ),
                }
            }
        } else if w == "discover"@ {
            match parsed_options(rest, seq!["root"@, "db"@]) {
                Err(f) => Err(f),
                Ok(o) => with_db(Ok(o), |db: Seq<char>| CommandView::Discover { options: o, db }),
            }
        } else if w == "sources"@ {
            with_db(parsed_options(rest, db_names()), |db: Seq<char>| CommandView::Sources { db })
        } else if w == "connect"@ || w == "decline"@ {
            if rest.len() == 0 {
                Err(ArgumentFailure::Usage)
            } else {
                with_db(
                    parsed_options(rest.skip(1), db_names()),
                    |db: Seq<char>|
                        CommandView::SourceAction { id: rest[0], approve: w == "connect"@, db },
                )
            }
        } else if w == "connections"@ {
            with_db(
                parsed_options(rest, db_names()),
                |db: Seq<char>| CommandView::Connections { db },
            )
        } else if status_word(w) is Some {
            if rest.len() == 0 {
                Err(ArgumentFailure::Usage)
            } else {
                with_db(
                    parsed_options(rest.skip(1), db_names()),
                    |db: Seq<char>|
                        CommandView::ConnectionAction {
                            id: rest[0],
                            status: status_word(w).unwrap(),
                            db,
                        },
                )
            }
        } else if w == "collect"@ {
            with_db(parsed_options(rest, db_names()), |db: Seq<char>| CommandView::Collect { db })
        } else {
            Err(ArgumentFailure::Usage)
        }
    }
}

/// Whether no two options share a name.
pub open spec fn names_distinct(options: Seq<(Seq<char>, Seq<char>)>) -> bool {
    forall|i: int, j: int|
        0 <= i < j < options.len() ==> (#[trigger] options[i]).0 != (#[trigger] options[j]).0
}

/// Parsing gives options with distinct names.
proof fn lemma_parsed_distinct(
    args: Seq<Seq<char>>,
    allowed: Seq<Seq<char>>,
    parsed: Seq<(Seq<char>, Seq<char>)>,
)
    requires
        names_distinct(parsed),
    ensures
        options_after(args, allowed, parsed) matches Ok(o) ==> names_distinct(o),
    decreases args.len(),
{
    if args.len() >= 2 && starts_with(args[0], "--"@) {
        let name = option_name(args[0]);
        if !(name.len() == 0 || !allowed.contains(name) || names(parsed, name)) {
            let next = parsed.push((name, args[1]));
            assert forall|i: int, j: int| 0 <= i < j < next.len() implies (#[trigger] next[i]).0
                != (#[trigger] next[j]).0 by {
                if j == parsed.len() {
                    assert(next[i] == parsed[i]);
                    if parsed[i].0 == name {
                        assert(names(parsed, name));
                    }
                }
            }
            lemma_parsed_distinct(args.skip(2), allowed, next);
        }
    }
}

/// The arguments from position `from` on.
fn tail(arguments: &[String], from: usize) -> (r: Vec<String>)
    requires
        from <= arguments@.len(),
    ensures
        texts(r@) == texts(arguments@).skip(from as int),
{
    let mut out: Vec<String> = Vec::new();
    let mut i: usize = from;
    while i < arguments.len()
        invariant
            from <= i <= arguments@.len(),
            texts(out@) =~= texts(arguments@).subrange(from as int, i as int),
        decreases arguments.len() - i,
    {
        let ghost before = texts(out@);
        out.push(arguments[i].clone());
        assert(texts(out@) =~= before.push(arguments@[i as int]@));
        assert(texts(out@) =~= texts(arguments@).subrange(from as int, i + 1));
        i = i + 1;
    }
    assert(texts(arguments@).subrange(from as int, arguments@.len() as int) =~= texts(
        arguments@,
    ).skip(from as int));
    out
}

/// Reads the database option of parsed options.
fn database_option(options: &Vec<(String, String)>, ghost_args: Ghost<Seq<Seq<char>>>, ghost_allowed: Ghost<Seq<Seq<char>>>) -> (r: Result<String, CliError>)
    requires
        parsed_options(ghost_args@, ghost_allowed@) == Ok::<
            Seq<(Seq<char>, Seq<char>)>,
            ArgumentFailure,
        >(options_view(options@)),
    ensures
        match required_value(options_view(options@), "db"@) {
            Ok(v) => r matches Ok(s) && s@ == v,
            Err(f) => r matches Err(e) && reports(e, f),
        },
{
    proof {
        lemma_parsed_distinct(ghost_args@, ghost_allowed@, Seq::empty());
        assert forall|i: int, j: int| 0 <= i < j < options@.len() implies (#[trigger] options@[i]).0@
            != (#[trigger] options@[j]).0@ by {
            assert(options_view(options@)[i].0 == options@[i].0@);
            assert(options_view(options@)[j].0 == options@[j].0@);
        }
    }
    required_option(options, "db")
}

/// Reads the arguments of a command that takes only a database.
fn db_command(rest: &Vec<String>) -> (r: Result<String, CliError>)
    ensures
        match with_db(
            parsed_options(texts(rest@), db_names()),
            |db: Seq<char>| CommandView::Sources { db },
        ) {
            Ok(CommandView::Sources { db }) => r matches Ok(v) && v@ == db,
            Ok(_) => false,
            Err(f) => r matches Err(e) && reports(e, f),
        },
{
    let allowed = db_only();
    let options = match parse_options(rest.as_slice(), allowed.as_slice()) {
        Ok(o) => o,
        Err(e) => return Err(e),
    };
    let ghost rv = texts(rest@);
    database_option(&options, Ghost(rv), Ghost(db_names()))
}

/// Reads a command from the arguments: the command word, then what the
/// command needs before anything is opened.
pub fn parse_command(arguments: &[String]) -> (r: Result<CliCommand, CliError>)
    ensures
        match command_from(texts(arguments@)) {
            Ok(c) => r matches Ok(x) && x@ == c,
            Err(f) => r matches Err(e) && reports(e, f),
        },
{
    proof {
        reveal_strlit("init");
        reveal_strlit("import");
        reveal_strlit("git");
        reveal_strlit("events");
        reveal_strlit("event");
        reveal_strlit("discover");
        reveal_strlit("sources");
        reveal_strlit("connect");
        reveal_strlit("decline");
        reveal_strlit("connections");
        reveal_strlit("pause");
        reveal_strlit("resume");
        reveal_strlit("disconnect");
        reveal_strlit("collect");
    }
    let ghost args = texts(arguments@);
    if arguments.len() == 0 {
        return Err(usage_error());
    }
    let word = &arguments[0];
    assert(args[0] == word@);
    let rest = tail(arguments, 1);
    let ghost rv = texts(rest@);
    assert(rv == args.skip(1));
    if is_word(word, "init") {
        let allowed = db_only();
        let options = match parse_options(rest.as_slice(), allowed.as_slice()) {
            Ok(o) => o,
            Err(e) => return Err(e),
        };
        let db = match database_option(&options, Ghost(rv), Ghost(db_names())) {
            Ok(v) => v,
            Err(e) => return Err(e),
        };
        return Ok(CliCommand::Init { db });
    }
    if is_word(word, "import") {
        if rest.len() == 0 || !is_word(&rest[0], "git") {
            return Err(usage_error());
        }
        let after = tail(rest.as_slice(), 1);
        let allowed = two_names("repo", "db");
        let options = match parse_options(after.as_slice(), allowed.as_slice()) {
            Ok(o) => o,
            Err(e) => return Err(e),
        };
        proof {
            lemma_parsed_distinct(rv.skip(1), seq!["repo"@, "db"@], Seq::empty());
            assert forall|i: int, j: int| 0 <= i < j < options@.len() implies (#[trigger] options@[i]).0@
                != (#[trigger] options@[j]).0@ by {
                assert(options_view(options@)[i].0 == options@[i].0@);
                assert(options_view(options@)[j].0 == options@[j].0@);
            }
        }
        let repo = match required_option(&options, "repo") {
            Ok(v) => v,
            Err(e) => return Err(e),
        };
        let db = match required_option(&options, "db") {
            Ok(v) => v,
            Err(e) => return Err(e),
        };
        return Ok(CliCommand::ImportGit { repo, db });
    }
    if is_word(word, "events") {
        let (raw, options) = match parse_presentation_options(rest.as_slice()) {
            Ok(v) => v,
            Err(e) => return Err(e),
        };
        let ghost split = raw_split(rv, false, Seq::empty())->Ok_0.1;
        let db = match database_option(&options, Ghost(split), Ghost(db_names())) {
            Ok(v) => v,
            Err(e) => return Err(e),
        };
        return Ok(CliCommand::Events { raw, db });
    }
    if is_word(word, "event") {
        if rest.len() == 0 {
            return Err(usage_error());
        }
        let id = &rest[0];
        let id_chars = crate::text::chars_of(id.as_str());
        if id_chars.len() == 0 || crate::scan::has_prefix(&id_chars, &crate::text::chars_of("--")) {
            return Err(CliError::InvalidEventId(id.clone()));
        }
        let after = tail(rest.as_slice(), 1);
        let (raw, options) = match parse_presentation_options(after.as_slice()) {
            Ok(v) => v,
            Err(e) => return Err(e),
        };
        let ghost split = raw_split(rv.skip(1), false, Seq::empty())->Ok_0.1;
        let db = match database_option(&options, Ghost(split), Ghost(db_names())) {
            Ok(v) => v,
            Err(e) => return Err(e),
        };
        return Ok(CliCommand::Event { id: id.clone(), raw, db });
    }
    if is_word(word, "discover") {
        let allowed = two_names("root", "db");
        let options = match parse_options(rest.as_slice(), allowed.as_slice()) {
            Ok(o) => o,
            Err(e) => return Err(e),
        };
        let ghost discover_names = seq!["root"@, "db"@];
        let db = match database_option(&options, Ghost(rv), Ghost(discover_names)) {
            Ok(v) => v,
            Err(e) => return Err(e),
        };
        return Ok(CliCommand::Discover { options, db });
    }
    if is_word(word, "sources") {
        let db = match db_command(&rest) {
            Ok(v) => v,
            Err(e) => return Err(e),
        };
        return Ok(CliCommand::Sources { db });
    }
    if is_word(word, "connections") {
        proof {
            assert("connections"@ != "connect"@);
        }
        let db = match db_command(&rest) {
            Ok(v) => v,
            Err(e) => return Err(e),
        };
        return Ok(CliCommand::Connections { db });
    }
    if is_word(word, "collect") {
        proof {
            assert("collect"@[2] != "connect"@[2]);
            assert("collect"@[0] != "decline"@[0]);
            assert("collect"@ != "connect"@);
            assert("collect"@ != "decline"@);
            assert(status_word("collect"@) is None);
        }
        let db = match db_command(&rest) {
            Ok(v) => v,
            Err(e) => return Err(e),
        };
        return Ok(CliCommand::Collect { db });
    }
    let approve = is_word(word, "connect");
    let source_word = approve || is_word(word, "decline");
    let status = if is_word(word, "pause") {
        Some(ConnectionStatus::Paused)
    } else if is_word(word, "resume") {
        Some(ConnectionStatus::Enabled)
    } else if is_word(word, "disconnect") {
        Some(ConnectionStatus::Disconnected)
    } else {
        None
    };
    if !source_word && status.is_none() {
        return Err(usage_error());
    }
    if rest.len() == 0 {
        return Err(usage_error());
    }
    let id = rest[0].clone();
    let after = tail(rest.as_slice(), 1);
    let allowed = db_only();
    let options = match parse_options(after.as_slice(), allowed.as_slice()) {
        Ok(o) => o,
        Err(e) => return Err(e),
    };
    let db = match database_option(&options, Ghost(rv.skip(1)), Ghost(db_names())) {
        Ok(v) => v,
        Err(e) => return Err(e),
    };
    match status {
        Some(status) => Ok(CliCommand::ConnectionAction { id, status, db }),
        None => Ok(CliCommand::SourceAction { id, approve, db }),
    }
}

/// The decimal digits of `value`, led by zeros to at least `width` digits.
pub open spec fn zero_padded(value: nat, width: nat) -> Seq<char> {
    let digits = decimal_text(value);
    if digits.len() < width {
        Seq::new((width - digits.len()) as nat, |i: int| '0') + digits
    } else {
        digits
    }
}

/// Writes `value` with zeros in front to at least `width` digits.
pub(crate) fn push_zero_padded(s: &mut String, value: u64, width: usize)
    ensures
        final(s)@ == old(s)@ + zero_padded(value as nat, width as nat),
{
    let digits = crate::text::decimal(value);
    let count: usize = crate::text::chars_of(digits.as_str()).len();
    let ghost start = s@;
    let mut pad: usize = 0;
    if count < width {
        while pad < width - count
            invariant
                count < width,
                pad <= width - count,
                s@ == start + Seq::new(pad as nat, |i: int| '0'),
            decreases width - count - pad,
        {
            crate::text::push_char(s, '0');
            assert(s@ =~= start + Seq::new((pad + 1) as nat, |i: int| '0'));
            pad = pad + 1;
        }
    }
    let ghost padded = s@;
    push_str(s, digits.as_str());
    proof {
        if count < width {
            assert(s@ =~= start + (Seq::new((width - count) as nat, |i: int| '0') + digits@));
        } else {
            assert(padded =~= start + Seq::new(0, |i: int| '0'));
            assert(s@ =~= start + digits@);
        }
    }
}

/// The raw text of a time: signed whole seconds from the epoch, nine
/// digits of nanoseconds, and `s`.
pub open spec fn system_time_text(nanos: int) -> Seq<char> {
    let magnitude = if nanos < 0 { -nanos } else { nanos };
    (if nanos < 0 { "-"@ } else { "+"@ }) + decimal_text((magnitude / 1_000_000_000) as nat) + "."@
        + zero_padded((magnitude % 1_000_000_000) as nat, 9) + "s"@
}

/// Writes a time as signed whole seconds from the epoch with nine digits of
/// nanoseconds.
pub fn format_system_time(time: UnixTime) -> (r: String)
    ensures
        r@ == system_time_text(time@),
{
    let mut s = String::new();
    if time.is_before_epoch() {
        push_str(&mut s, "-");
    } else {
        push_str(&mut s, "+");
    }
    crate::text::push_decimal(&mut s, time.whole_seconds());
    push_str(&mut s, ".");
    push_zero_padded(&mut s, time.subsecond_nanos() as u64, 9);
    push_str(&mut s, "s");
    s
}

/// The labeled lines of presentation fields.
pub open spec fn fields_text(fields: Seq<FieldView>) -> Seq<char>
    decreases fields.len(),
{
    if fields.len() == 0 {
        Seq::empty()
    } else {
        fields_text(fields.drop_last()) + fields.last().label + ": "@ + fields.last().value + "\n"@
    }
}

/// Writes each field as a `label: value` line.
pub fn append_fields(output: &mut String, fields: &[PresentationField])
    ensures
        final(output)@ == old(output)@ + fields_text(fields_view(fields@)),
{
    let ghost start = output@;
    let ghost all = fields_view(fields@);
    let mut i: usize = 0;
    assert(all.take(0) =~= Seq::<FieldView>::empty());
    assert(output@ =~= start + fields_text(all.take(0)));
    while i < fields.len()
        invariant
            i <= fields@.len(),
            all == fields_view(fields@),
            output@ == start + fields_text(all.take(i as int)),
        decreases fields.len() - i,
    {
        let field = &fields[i];
        push_str(output, field.label());
        push_str(output, ": ");
        push_str(output, field.value());
        push_str(output, "\n");
        proof {
            assert(all.take(i + 1).drop_last() =~= all.take(i as int));
            assert(all.take(i + 1).last() == field@);
            assert(output@ =~= start + fields_text(all.take(i + 1)));
        }
        i = i + 1;
    }
    assert(all.take(all.len() as int) =~= all);
}

/// The format of local times on the command line.
pub open spec fn local_time_format() -> Seq<char> {
    "[year]-[month]-[day] [hour]:[minute]:[second] [offset_hour sign:mandatory]:[offset_minute]"@
}

/// Whether `text` is a time shown in the local time zone at some offset.
pub open spec fn shows_local_time(nanos: int, text: Seq<char>) -> bool {
    exists|offset: int|
        -93_599 <= offset <= 93_599 && #[trigger] local_time_text(nanos, offset, local_time_format())
            == Ok::<Seq<char>, Seq<char>>(text)
}

/// Writes a time in the local time zone, with its offset.
pub fn format_local_time(time: UnixTime) -> (r: Result<String, CliError>)
    requires
        presentable_time(time@),
    ensures
        match r {
            Ok(s) => shows_local_time(time@, s@),
            Err(e) => e is Timestamp,
        },
{
    let offset = match local_offset_seconds(time) {
        Ok(o) => o,
        Err(message) => return Err(CliError::Timestamp { message }),
    };
    match format_local(
        time,
        offset,
        "[year]-[month]-[day] [hour]:[minute]:[second] [offset_hour sign:mandatory]:[offset_minute]",
    ) {
        Ok(s) => {
            assert(local_time_text(time@, offset as int, local_time_format()) == Ok::<
                Seq<char>,
                Seq<char>,
            >(s@));
            Ok(s)
        },
        Err(message) => Err(CliError::Timestamp { message }),
    }
}

/// The compact text of a presentation, with its time shown as `time`.
pub open spec fn compact_text(p: CompactView, time: Seq<char>) -> Seq<char> {
    p.source_label + "\n"@ + p.title + "\n"@ + match p.subtitle {
        Some(sub) => sub + "\n"@,
        None => Seq::empty(),
    } + fields_text(p.identifiers) + fields_text(p.key_fields) + "Occurred: "@ + time + "\n"@
}

/// Writes a compact presentation: source, title, subtitle, identifiers,
/// key fields and the local time it occurred.
pub fn format_compact_presentation(presentation: &CompactPresentation) -> (r: Result<
    String,
    CliError,
>)
    requires
        presentable_time(presentation@.timestamp),
    ensures
        match r {
            Ok(s) => exists|time: Seq<char>|
                shows_local_time(presentation@.timestamp, time) && s@ == #[trigger] compact_text(
                    presentation@,
                    time,
                ),
            Err(e) => e is Timestamp,
        },
{
    let mut output = String::new();
    push_str(&mut output, presentation.source_label());
    push_str(&mut output, "\n");
    push_str(&mut output, presentation.title());
    push_str(&mut output, "\n");
    match presentation.subtitle() {
        Some(subtitle) => {
            push_str(&mut output, subtitle);
            push_str(&mut output, "\n");
        },
        None => {},
    }
    append_fields(&mut output, presentation.identifiers().as_slice());
    append_fields(&mut output, presentation.key_fields().as_slice());
    let time = match format_local_time(presentation.timestamp()) {
        Ok(t) => t,
        Err(e) => return Err(e),
    };
    push_str(&mut output, "Occurred: ");
    push_str(&mut output, time.as_str());
    push_str(&mut output, "\n");
    assert(output@ =~= compact_text(presentation@, time@));
    Ok(output)
}

/// The detailed text of a presentation, with its time shown as `time`.
pub open spec fn detailed_text(p: DetailedView, time: Seq<char>) -> Seq<char> {
    p.source_label + "\n"@ + p.title + "\n"@ + "Occurred: "@ + time + "\n"@ + fields_text(p.fields)
        + if p.technical_identifiers.len() == 0 {
        Seq::empty()
    } else {
        "Technical identifiers:\n"@ + fields_text(p.technical_identifiers)
    }
}

/// Writes a detailed presentation: source, title, the local time it
/// occurred, its fields and any technical identifiers.
pub fn format_detailed_presentation(presentation: &DetailedPresentation) -> (r: Result<
    String,
    CliError,
>)
    requires
        presentable_time(presentation@.timestamp),
    ensures
        match r {
            Ok(s) => exists|time: Seq<char>|
                shows_local_time(presentation@.timestamp, time) && s@ == #[trigger] detailed_text(
                    presentation@,
                    time,
                ),
            Err(e) => e is Timestamp,
        },
{
    let mut output = String::new();
    push_str(&mut output, presentation.source_label());
    push_str(&mut output, "\n");
    push_str(&mut output, presentation.title());
    push_str(&mut output, "\n");
    let time = match format_local_time(presentation.timestamp()) {
        Ok(t) => t,
        Err(e) => return Err(e),
    };
    push_str(&mut output, "Occurred: ");
    push_str(&mut output, time.as_str());
    push_str(&mut output, "\n");
    append_fields(&mut output, presentation.fields().as_slice());
    if presentation.technical_identifiers().len() > 0 {
        push_str(&mut output, "Technical identifiers:\n");
        append_fields(&mut output, presentation.technical_identifiers().as_slice());
    }
    assert(output@ =~= detailed_text(presentation@, time@));
    Ok(output)
}

/// The raw summary of an event.
pub open spec fn raw_summary_text(e: EventView) -> Seq<char> {
    "id: "@ + e.id + "\noccurred_at: "@ + system_time_text(e.occurred_at) + "\ncaptured_at: "@
        + system_time_text(e.captured_at) + "\nconnector: "@ + e.source.connector_id
        + "\nsource: "@ + e.source.reference + "\nkind: "@ + e.kind + "\n"@
}

/// Writes the raw summary of an event: identifier, times, provenance and kind.
pub fn format_raw_event_summary(event: &Event) -> (r: String)
    ensures
        r@ == raw_summary_text(event@),
{
    let mut s = String::new();
    push_str(&mut s, "id: ");
    push_str(&mut s, event.id().as_str());
    push_str(&mut s, "\noccurred_at: ");
    let occurred = format_system_time(event.occurred_at().as_system_time());
    push_str(&mut s, occurred.as_str());
    push_str(&mut s, "\ncaptured_at: ");
    let captured = format_system_time(event.captured_at().as_system_time());
    push_str(&mut s, captured.as_str());
    push_str(&mut s, "\nconnector: ");
    push_str(&mut s, event.source().connector_id().as_str());
    push_str(&mut s, "\nsource: ");
    push_str(&mut s, event.source().reference().as_str());
    push_str(&mut s, "\nkind: ");
    push_str(&mut s, event.kind().as_str());
    push_str(&mut s, "\n");
    assert(s@ =~= raw_summary_text(event@));
    s
}

/// The `metadata.key: value` lines of metadata.
pub open spec fn metadata_text(m: Seq<(Seq<char>, Seq<char>)>) -> Seq<char>
    decreases m.len(),
{
    if m.len() == 0 {
        Seq::empty()
    } else {
        metadata_text(m.drop_last()) + "metadata."@ + m.last().0 + ": "@ + m.last().1 + "\n"@
    }
}

/// The raw commit text shown for a Git commit event whose bytes are UTF-8.
pub open spec fn commit_raw_text(e: EventView) -> Seq<char> {
    if e.kind == "git.commit"@ && vstd::utf8::valid_utf8(e.payload.bytes) {
        let raw = vstd::utf8::decode_utf8(e.payload.bytes);
        "git_commit_raw:\n"@ + raw + if raw.len() > 0 && raw.last() == '\n' {
            Seq::empty()
        } else {
            "\n"@
        }
    } else {
        Seq::empty()
    }
}

/// The full raw record of an event.
pub open spec fn raw_record_text(e: EventView) -> Seq<char> {
    raw_summary_text(e) + "schema_version: "@ + e.schema_version + "\n"@ + "payload_media_type: "@
        + match e.payload.media_type {
        Some(t) => t,
        None => "none"@,
    } + "\n"@ + metadata_text(e.payload.metadata) + "payload_bytes_hex: "@ + hex_text(
        e.payload.bytes,
    ) + "\n"@ + commit_raw_text(e)
}

/// Writes the full raw record of an event: its summary, schema version,
/// media type, metadata, payload bytes in hexadecimal and, for a Git commit
/// whose bytes are UTF-8, the raw commit text.
pub fn format_raw_event_record(event: &Event) -> (r: String)
    ensures
        r@ == raw_record_text(event@),
{
    let mut output = format_raw_event_summary(event);
    push_str(&mut output, "schema_version: ");
    push_str(&mut output, event.schema_version().as_str());
    push_str(&mut output, "\n");
    push_str(&mut output, "payload_media_type: ");
    match event.payload().media_type() {
        Some(t) => push_str(&mut output, t.as_str()),
        None => push_str(&mut output, "none"),
    }
    push_str(&mut output, "\n");
    let metadata = event.payload().metadata().as_text_map();
    let ghost m = metadata@;
    let ghost head = output@;
    let mut i: usize = 0;
    assert(m.take(0) =~= Seq::<(Seq<char>, Seq<char>)>::empty());
    assert(output@ =~= head + metadata_text(m.take(0)));
    while i < metadata.len()
        invariant
            i <= m.len(),
            m == metadata@,
            output@ == head + metadata_text(m.take(i as int)),
        decreases m.len() - i,
    {
        push_str(&mut output, "metadata.");
        push_str(&mut output, metadata.key_at(i).as_str());
        push_str(&mut output, ": ");
        push_str(&mut output, metadata.value_at(i).as_str());
        push_str(&mut output, "\n");
        proof {
            assert(m.take(i + 1).drop_last() =~= m.take(i as int));
            assert(m.take(i + 1).last() == m[i as int]);
            assert(output@ =~= head + metadata_text(m.take(i + 1)));
        }
        i = i + 1;
    }
    assert(m.take(m.len() as int) =~= m);
    push_str(&mut output, "payload_bytes_hex: ");
    let h = crate::git::hex(event.payload().bytes().as_slice());
    push_str(&mut output, h.as_str());
    push_str(&mut output, "\n");
    let ghost before_raw = output@;
    if crate::text::str_eq(event.kind().as_str(), "git.commit") {
        match crate::commit::utf8_text(event.payload().bytes().as_slice()) {
            Some(raw) => {
                push_str(&mut output, "git_commit_raw:\n");
                push_str(&mut output, raw.as_str());
                let chars = crate::text::chars_of(raw.as_str());
                let ends = chars.len() > 0 && chars[chars.len() - 1] == '\n';
                if !ends {
                    push_str(&mut output, "\n");
                }
            },
            None => {},
        }
    }
    assert(output@ =~= raw_record_text(event@));
    output
}

/// What `discover` prints.
pub open spec fn discovered_text(count: nat) -> Seq<char> {
    "discovered: "@ + decimal_text(count) + "\n"@
}

/// Writes what `discover` prints.
pub fn discovered_output(count: usize) -> (r: String)
    ensures
        r@ == discovered_text(count as nat),
{
    let mut s = String::new();
    push_str(&mut s, "discovered: ");
    crate::text::push_decimal(&mut s, count as u64);
    push_str(&mut s, "\n");
    s
}

/// What `collect` prints.
pub open spec fn collected_text(report: CollectionCycleReport) -> Seq<char> {
    "imported: "@ + decimal_text(report.imported as nat) + "\nfailed: "@ + decimal_text(
        report.failed as nat,
    ) + "\nskipped: "@ + decimal_text(report.skipped as nat) + "\n"@
}

/// Writes what `collect` prints.
pub fn collected_output(report: &CollectionCycleReport) -> (r: String)
    ensures
        r@ == collected_text(*report),
{
    let mut s = String::new();
    push_str(&mut s, "imported: ");
    crate::text::push_decimal(&mut s, report.imported as u64);
    push_str(&mut s, "\nfailed: ");
    crate::text::push_decimal(&mut s, report.failed as u64);
    push_str(&mut s, "\nskipped: ");
    crate::text::push_decimal(&mut s, report.skipped as u64);
    push_str(&mut s, "\n");
    s
}

/// What `import git` prints.
pub open spec fn imported_text(report: ImportCounts) -> Seq<char> {
    "imported: "@ + decimal_text(report.imported) + "\nduplicates: "@ + decimal_text(
        report.duplicates,
    ) + "\nrejected: "@ + decimal_text(report.rejected) + "\nfailed: "@ + decimal_text(
        report.failed,
    ) + "\n"@
}

/// Writes what `import git` prints.
pub fn imported_output(report: &GitImportReport) -> (r: String)
    ensures
        r@ == imported_text(report@),
{
    let mut s = String::new();
    push_str(&mut s, "imported: ");
    crate::text::push_decimal(&mut s, report.imported() as u64);
    push_str(&mut s, "\nduplicates: ");
    crate::text::push_decimal(&mut s, report.duplicates() as u64);
    push_str(&mut s, "\nrejected: ");
    crate::text::push_decimal(&mut s, report.rejected() as u64);
    push_str(&mut s, "\nfailed: ");
    crate::text::push_decimal(&mut s, report.failed() as u64);
    push_str(&mut s, "\n");
    s
}

/// Writes what `init` prints.
pub fn initialized_output(path: &str) -> (r: String)
    ensures
        r@ == "database initialized: "@ + path@ + "\n"@,
{
    let mut s = String::new();
    push_str(&mut s, "database initialized: ");
    push_str(&mut s, path);
    push_str(&mut s, "\n");
    s
}

/// Writes what `connect` prints.
pub fn connected_output(id: &ConnectionId) -> (r: String)
    ensures
        r@ == "connected: "@ + id@ + "\n"@,
{
    let mut s = String::new();
    push_str(&mut s, "connected: ");
    push_str(&mut s, id.as_str());
    push_str(&mut s, "\n");
    s
}

/// What a connection command prints: the new status, in lower case.
pub open spec fn status_changed_text(status: ConnectionStatus) -> Seq<char> {
    match status {
        ConnectionStatus::Enabled => "enabled\n"@,
        ConnectionStatus::Paused => "paused\n"@,
        ConnectionStatus::Disconnected => "disconnected\n"@,
    }
}

/// Returns what a connection command prints.
pub fn status_changed_output(status: ConnectionStatus) -> (r: &'static str)
    ensures
        r@ == status_changed_text(status),
{
    match status {
        ConnectionStatus::Enabled => "enabled\n",
        ConnectionStatus::Paused => "paused\n",
        ConnectionStatus::Disconnected => "disconnected\n",
    }
}

/// The name of a discovery status as debugging output writes it.
pub open spec fn discovery_status_name(status: DiscoveryStatus) -> Seq<char> {
    match status {
        DiscoveryStatus::AwaitingDecision => "AwaitingDecision"@,
        DiscoveryStatus::Declined => "Declined"@,
        DiscoveryStatus::Connected => "Connected"@,
    }
}

/// Returns the name of a discovery status as debugging output writes it.
fn discovery_status_debug(status: DiscoveryStatus) -> (r: &'static str)
    ensures
        r@ == discovery_status_name(status),
{
    match status {
        DiscoveryStatus::AwaitingDecision => "AwaitingDecision",
        DiscoveryStatus::Declined => "Declined",
        DiscoveryStatus::Connected => "Connected",
    }
}

/// The name of a monitoring policy as debugging output writes it.
pub open spec fn policy_name(policy: MonitoringPolicy) -> Seq<char> {
    match policy {
        MonitoringPolicy::Always => "Always"@,
        MonitoringPolicy::Paused => "Paused"@,
    }
}

/// Returns the name of a monitoring policy as debugging output writes it.
fn policy_debug(policy: MonitoringPolicy) -> (r: &'static str)
    ensures
        r@ == policy_name(policy),
{
    match policy {
        MonitoringPolicy::Always => "Always",
        MonitoringPolicy::Paused => "Paused",
    }
}

/// The listing of a discovered source, with its two times shown as given.
pub open spec fn source_text(s: SourceRecordView, first: Seq<char>, last: Seq<char>) -> Seq<char> {
    "id: "@ + s.id + "\nconnector: "@ + s.connector_id + "\nname: "@ + s.display_name
        + "\nreference: "@ + match s.local_reference {
        Some(r) => r,
        None => "none"@,
    } + "\nstatus: "@ + discovery_status_name(s.status) + "\nfirst_discovered: "@ + first
        + "\nlast_seen: "@ + last + "\n"@
}

/// Whether `text` lists a source with its times in the local time zone.
pub open spec fn lists_source(s: SourceRecordView, text: Seq<char>) -> bool {
    exists|first: Seq<char>, last: Seq<char>|
        shows_local_time(s.first_discovered, first) && shows_local_time(s.last_seen, last) && text
            == #[trigger] source_text(s, first, last)
}

/// Writes the listing of a discovered source.
pub fn source_output(source: &DiscoveredSource) -> (r: Result<String, CliError>)
    requires
        presentable_time(source@.first_discovered),
        presentable_time(source@.last_seen),
    ensures
        match r {
            Ok(s) => lists_source(source@, s@),
            Err(e) => e is Timestamp,
        },
{
    let first = match format_local_time(source.first_discovered) {
        Ok(t) => t,
        Err(e) => return Err(e),
    };
    let last = match format_local_time(source.last_seen) {
        Ok(t) => t,
        Err(e) => return Err(e),
    };
    let mut s = String::new();
    push_str(&mut s, "id: ");
    push_str(&mut s, source.id.as_str());
    push_str(&mut s, "\nconnector: ");
    push_str(&mut s, source.connector_id.as_str());
    push_str(&mut s, "\nname: ");
    push_str(&mut s, source.display_name.as_str());
    push_str(&mut s, "\nreference: ");
    match &source.local_reference {
        Some(r) => push_str(&mut s, r.as_str()),
        None => push_str(&mut s, "none"),
    }
    push_str(&mut s, "\nstatus: ");
    push_str(&mut s, discovery_status_debug(source.status));
    push_str(&mut s, "\nfirst_discovered: ");
    push_str(&mut s, first.as_str());
    push_str(&mut s, "\nlast_seen: ");
    push_str(&mut s, last.as_str());
    push_str(&mut s, "\n");
    assert(s@ =~= source_text(source@, first@, last@));
    Ok(s)
}

/// An optional time shown as given, or `never`.
pub open spec fn optional_time_text(t: Option<int>, shown: Seq<char>) -> Seq<char> {
    match t {
        Some(_) => shown,
        None => "never"@,
    }
}

/// Whether `shown` shows an optional time in the local time zone; there is
/// nothing to show for no time.
pub open spec fn shows_optional_time(t: Option<int>, shown: Seq<char>) -> bool {
    match t {
        Some(v) => shows_local_time(v, shown),
        None => true,
    }
}

/// The listing of a connection, with its times shown as given.
pub open spec fn connection_text(
    c: ConnectionView,
    approved: Seq<char>,
    attempt: Seq<char>,
    success: Seq<char>,
) -> Seq<char> {
    "id: "@ + c.id + "\nsource: "@ + c.source_id + "\nconnector: "@ + c.connector_id
        + "\nstatus: "@ + crate::store::status_debug_name(c.status) + "\npolicy: "@ + policy_name(
        c.policy,
    ) + "\napproved_at: "@ + approved + "\nlast_attempt: "@ + optional_time_text(
        c.last_attempt,
        attempt,
    ) + "\nlast_success: "@ + optional_time_text(c.last_success, success) + "\nlast_error: "@
        + match c.last_error {
        Some(e) => e,
        None => "none"@,
    } + "\n"@
}

/// Whether `text` lists a connection with its times in the local time zone.
pub open spec fn lists_connection(c: ConnectionView, text: Seq<char>) -> bool {
    exists|approved: Seq<char>, attempt: Seq<char>, success: Seq<char>|
        shows_local_time(c.approved_at, approved) && shows_optional_time(c.last_attempt, attempt)
            && shows_optional_time(c.last_success, success) && text == #[trigger] connection_text(
            c,
            approved,
            attempt,
            success,
        )
}

/// Writes an optional time in the local time zone, or `never`.
fn optional_local_time(t: Option<UnixTime>) -> (r: Result<String, CliError>)
    requires
        t matches Some(v) ==> presentable_time(v@),
    ensures
        match r {
            Ok(s) => exists|shown: Seq<char>|
                shows_optional_time(crate::operations::opt_time(t), shown) && s@
                    == #[trigger] optional_time_text(crate::operations::opt_time(t), shown),
            Err(e) => e is Timestamp,
        },
{
    match t {
        Some(v) => {
            let s = match format_local_time(v) {
                Ok(s) => s,
                Err(e) => return Err(e),
            };
            assert(s@ == optional_time_text(crate::operations::opt_time(t), s@));
            Ok(s)
        },
        None => {
            let s = "never".to_owned();
            assert(s@ == optional_time_text(crate::operations::opt_time(t), Seq::empty()));
            Ok(s)
        },
    }
}

/// Writes the listing of a connection.
pub fn connection_output(connection: &ConnectionRecord) -> (r: Result<String, CliError>)
    requires
        presentable_time(connection@.approved_at),
        connection.last_attempt matches Some(t) ==> presentable_time(t@),
        connection.last_success matches Some(t) ==> presentable_time(t@),
    ensures
        match r {
            Ok(s) => lists_connection(connection@, s@),
            Err(e) => e is Timestamp,
        },
{
    let approved = match format_local_time(connection.approved_at) {
        Ok(t) => t,
        Err(e) => return Err(e),
    };
    let attempt = match optional_local_time(connection.last_attempt) {
        Ok(t) => t,
        Err(e) => return Err(e),
    };
    let success = match optional_local_time(connection.last_success) {
        Ok(t) => t,
        Err(e) => return Err(e),
    };
    let ghost attempt_shown = choose|shown: Seq<char>|
        shows_optional_time(connection@.last_attempt, shown) && attempt@
            == #[trigger] optional_time_text(connection@.last_attempt, shown);
    let ghost success_shown = choose|shown: Seq<char>|
        shows_optional_time(connection@.last_success, shown) && success@
            == #[trigger] optional_time_text(connection@.last_success, shown);
    let mut s = String::new();
    push_str(&mut s, "id: ");
    push_str(&mut s, connection.id.as_str());
    push_str(&mut s, "\nsource: ");
    push_str(&mut s, connection.source_id.as_str());
    push_str(&mut s, "\nconnector: ");
    push_str(&mut s, connection.connector_id.as_str());
    push_str(&mut s, "\nstatus: ");
    push_str(&mut s, crate::store::status_debug(connection.status));
    push_str(&mut s, "\npolicy: ");
    push_str(&mut s, policy_debug(connection.policy));
    push_str(&mut s, "\napproved_at: ");
    push_str(&mut s, approved.as_str());
    push_str(&mut s, "\nlast_attempt: ");
    push_str(&mut s, attempt.as_str());
    push_str(&mut s, "\nlast_success: ");
    push_str(&mut s, success.as_str());
    push_str(&mut s, "\nlast_error: ");
    match &connection.last_error {
        Some(e) => push_str(&mut s, e.as_str()),
        None => push_str(&mut s, "none"),
    }
    push_str(&mut s, "\n");
    assert(s@ =~= connection_text(connection@, approved@, attempt_shown, success_shown));
    Ok(s)
}

/// Whether `parts`, one for each item, joined by blank lines, is `text`.
pub open spec fn joined_blocks(parts: Seq<Seq<char>>, text: Seq<char>) -> bool {
    text == crate::commit::join_text(parts, "\n"@)
}

/// Whether `text` lists each source, joined by blank lines.
pub open spec fn lists_sources(sources: Seq<SourceRecordView>, text: Seq<char>) -> bool {
    exists|parts: Seq<Seq<char>>|
        #![trigger joined_blocks(parts, text)]
        parts.len() == sources.len() && (forall|i: int|
            0 <= i < parts.len() ==> lists_source(sources[i], #[trigger] parts[i]))
            && joined_blocks(parts, text)
}

/// Writes the listing of discovered sources, or says there are none.
pub fn sources_output(sources: &Vec<DiscoveredSource>) -> (r: Result<String, CliError>)
    requires
        forall|i: int|
            0 <= i < sources@.len() ==> presentable_time((#[trigger] sources@[i])@.first_discovered)
                && presentable_time(sources@[i]@.last_seen),
    ensures
        sources@.len() == 0 ==> (r matches Ok(text) && text@ == "no discovered sources\n"@),
        sources@.len() > 0 ==> (r matches Ok(text) ==> lists_sources(
            sources@.map_values(|s: DiscoveredSource| s@),
            text@,
        )),
        r matches Err(e) ==> e is Timestamp,
{
    if sources.len() == 0 {
        return Ok("no discovered sources\n".to_owned());
    }
    let mut parts: Vec<String> = Vec::new();
    let mut i: usize = 0;
    while i < sources.len()
        invariant
            i <= sources@.len(),
            parts@.len() == i,
            forall|j: int|
                0 <= j < sources@.len() ==> presentable_time((#[trigger] sources@[j])@.first_discovered)
                    && presentable_time(sources@[j]@.last_seen),
            forall|j: int| 0 <= j < i ==> lists_source(sources@[j]@, (#[trigger] parts@[j])@),
        decreases sources.len() - i,
    {
        let part = match source_output(&sources[i]) {
            Ok(p) => p,
            Err(e) => return Err(e),
        };
        parts.push(part);
        i = i + 1;
    }
    let text = crate::commit::join(&parts, "\n");
    proof {
        let views = crate::commit::strings_view(parts@);
        assert forall|j: int| 0 <= j < views.len() implies lists_source(
            sources@[j]@,
            #[trigger] views[j],
        ) by {
            assert(views[j] == parts@[j]@);
        }
        assert(joined_blocks(views, text@));
        let listed = sources@.map_values(|s: DiscoveredSource| s@);
        assert forall|j: int| 0 <= j < views.len() implies lists_source(
            listed[j],
            #[trigger] views[j],
        ) by {
            assert(listed[j] == sources@[j]@);
        }
        assert(lists_sources(listed, text@));
    }
    Ok(text)
}

/// Whether `text` lists each connection, joined by blank lines.
pub open spec fn lists_connections(connections: Seq<ConnectionView>, text: Seq<char>) -> bool {
    exists|parts: Seq<Seq<char>>|
        #![trigger joined_blocks(parts, text)]
        parts.len() == connections.len() && (forall|i: int|
            0 <= i < parts.len() ==> lists_connection(connections[i], #[trigger] parts[i]))
            && joined_blocks(parts, text)
}

/// Writes the listing of connections, or says there are none.
pub fn connections_output(connections: &Vec<ConnectionRecord>) -> (r: Result<String, CliError>)
    requires
        forall|i: int|
            0 <= i < connections@.len() ==> {
                let c = #[trigger] connections@[i];
                &&& presentable_time(c@.approved_at)
                &&& c.last_attempt matches Some(t) ==> presentable_time(t@)
                &&& c.last_success matches Some(t) ==> presentable_time(t@)
            },
    ensures
        connections@.len() == 0 ==> (r matches Ok(text) && text@ == "no connections\n"@),
        connections@.len() > 0 ==> (r matches Ok(text) ==> lists_connections(
            connections@.map_values(|c: ConnectionRecord| c@),
            text@,
        )),
        r matches Err(e) ==> e is Timestamp,
{
    if connections.len() == 0 {
        return Ok("no connections\n".to_owned());
    }
    let mut parts: Vec<String> = Vec::new();
    let mut i: usize = 0;
    while i < connections.len()
        invariant
            i <= connections@.len(),
            parts@.len() == i,
            forall|j: int|
                0 <= j < connections@.len() ==> {
                    let c = #[trigger] connections@[j];
                    &&& presentable_time(c@.approved_at)
                    &&& c.last_attempt matches Some(t) ==> presentable_time(t@)
                    &&& c.last_success matches Some(t) ==> presentable_time(t@)
                },
            forall|j: int| 0 <= j < i ==> lists_connection(connections@[j]@, (#[trigger] parts@[j])@),
        decreases connections.len() - i,
    {
        let part = match connection_output(&connections[i]) {
            Ok(p) => p,
            Err(e) => return Err(e),
        };
        parts.push(part);
        i = i + 1;
    }
    let text = crate::commit::join(&parts, "\n");
    proof {
        let views = crate::commit::strings_view(parts@);
        assert forall|j: int| 0 <= j < views.len() implies lists_connection(
            connections@[j]@,
            #[trigger] views[j],
        ) by {
            assert(views[j] == parts@[j]@);
        }
        assert(joined_blocks(views, text@));
        let listed = connections@.map_values(|c: ConnectionRecord| c@);
        assert forall|j: int| 0 <= j < views.len() implies lists_connection(
            listed[j],
            #[trigger] views[j],
        ) by {
            assert(listed[j] == connections@[j]@);
        }
        assert(lists_connections(listed, text@));
    }
    Ok(text)
}

/// Writes the raw summaries of events, or says there are none.
pub fn raw_events_output(events: &Vec<Event>) -> (r: String)
    ensures
        events@.len() == 0 ==> r@ == "no events\n"@,
        events@.len() > 0 ==> r@ == crate::commit::join_text(
            events@.map_values(|e: Event| raw_summary_text(e@)),
            "\n"@,
        ),
{
    if events.len() == 0 {
        return "no events\n".to_owned();
    }
    let mut parts: Vec<String> = Vec::new();
    let mut i: usize = 0;
    while i < events.len()
        invariant
            i <= events@.len(),
            parts@.len() == i,
            forall|j: int| 0 <= j < i ==> (#[trigger] parts@[j])@ == raw_summary_text(events@[j]@),
        decreases events.len() - i,
    {
        parts.push(format_raw_event_summary(&events[i]));
        i = i + 1;
    }
    let text = crate::commit::join(&parts, "\n");
    assert(crate::commit::strings_view(parts@) =~= events@.map_values(
        |e: Event| raw_summary_text(e@),
    ));
    text
}

/// Whether `text` is some compact presentation shown with its time in the
/// local time zone.
pub open spec fn shows_compact(text: Seq<char>) -> bool {
    exists|p: CompactView, time: Seq<char>|
        shows_local_time(p.timestamp, time) && text == #[trigger] compact_text(p, time)
}

/// Whether `text` is `count` compact presentations joined by blank lines.
pub open spec fn shows_compacts(count: nat, text: Seq<char>) -> bool {
    exists|parts: Seq<Seq<char>>|
        #![trigger joined_blocks(parts, text)]
        parts.len() == count && (forall|i: int| 0 <= i < parts.len() ==> shows_compact(#[trigger] parts[i]))
            && joined_blocks(parts, text)
}

/// Writes the compact presentation of each event, or says there are none.
/// A presentation whose time cannot be shown in the local calendar is
/// reported as a timestamp error.
pub fn presented_events_output<P: EventPresenter>(
    events: &Vec<Event>,
    registry: &PresentationRegistry<P>,
) -> (r: Result<String, CliError>)
    ensures
        events@.len() == 0 ==> (r matches Ok(text) && text@ == "no events\n"@),
        events@.len() > 0 ==> (r matches Ok(text) ==> shows_compacts(events@.len(), text@)
            && forall|i: int|
            0 <= i < events@.len() ==> registry@.contains(
                (#[trigger] events@[i])@.source.connector_id,
            )),
        r matches Err(e) ==> e is Timestamp || e is Presentation,
{
    if events.len() == 0 {
        return Ok("no events\n".to_owned());
    }
    let mut parts: Vec<String> = Vec::new();
    let mut i: usize = 0;
    while i < events.len()
        invariant
            i <= events@.len(),
            parts@.len() == i,
            forall|j: int| 0 <= j < i ==> shows_compact((#[trigger] parts@[j])@),
            forall|j: int| 0 <= j < i ==> registry@.contains((#[trigger] events@[j])@.source.connector_id),
        decreases events.len() - i,
    {
        let presentation = match registry.present_compact(&events[i]) {
            Ok(p) => p,
            Err(e) => return Err(CliError::Presentation(e)),
        };
        if !crate::clock::is_presentable(presentation.timestamp()) {
            return Err(CliError::Timestamp { message: "time outside the local calendar".to_owned() });
        }
        let part = match format_compact_presentation(&presentation) {
            Ok(p) => p,
            Err(e) => return Err(e),
        };
        parts.push(part);
        i = i + 1;
    }
    let text = crate::commit::join(&parts, "\n");
    proof {
        let views = crate::commit::strings_view(parts@);
        assert forall|j: int| 0 <= j < views.len() implies shows_compact(#[trigger] views[j]) by {
            assert(views[j] == parts@[j]@);
        }
        assert(joined_blocks(views, text@));
        assert(shows_compacts(events@.len(), text@));
    }
    Ok(text)
}

/// Whether `text` is some detailed presentation shown with its time in the
/// local time zone.
pub open spec fn shows_detailed(text: Seq<char>) -> bool {
    exists|p: DetailedView, time: Seq<char>|
        shows_local_time(p.timestamp, time) && text == #[trigger] detailed_text(p, time)
}

/// Writes one event: its raw record, or its detailed presentation. A
/// presentation whose time cannot be shown in the local calendar is
/// reported as a timestamp error.
pub fn event_output<P: EventPresenter>(
    event: &Event,
    raw: bool,
    registry: &PresentationRegistry<P>,
) -> (r: Result<String, CliError>)
    ensures
        raw ==> (r matches Ok(text) && text@ == raw_record_text(event@)),
        !raw ==> match r {
            Ok(text) => shows_detailed(text@) && registry@.contains(event@.source.connector_id),
            Err(e) => e is Timestamp || e is Presentation,
        },
{
    if raw {
        return Ok(format_raw_event_record(event));
    }
    let presentation = match registry.present_detailed(event) {
        Ok(p) => p,
        Err(e) => return Err(CliError::Presentation(e)),
    };
    if !crate::clock::is_presentable(presentation.timestamp()) {
        return Err(CliError::Timestamp { message: "time outside the local calendar".to_owned() });
    }
    format_detailed_presentation(&presentation)
}

} // verus!
