use vstd::prelude::*;
use crate::clock::{local_now, Moment};
use crate::entry::{entry_line, entry_text, joined, journal_path, line_of, path_of, views};
use crate::pattern::{format_date, formatted};

verus! {

/// Why an invocation stopped without adding an entry.
#[derive(Debug)]
pub enum JournalError {
    /// The home-directory variable is not set.
    HomeUnset,
    /// The date-format variable is not set.
    FormatUnset,
    /// Nothing exists at the configured home path.
    HomeMissing { home: String },
    /// The configured home path is not a directory.
    HomeNotDirectory { home: String },
    /// No entry text was given.
    NoEntry,
    /// The dated journal file does not exist.
    TargetMissing { path: String },
    /// The journal file could not be opened for appending.
    OpenFailed { path: String, reason: String },
    /// The entry line could not be written.
    WriteFailed { reason: String },
}

/// The mathematical value of a [`JournalError`].
pub enum ErrorView {
    HomeUnset,
    FormatUnset,
    HomeMissing { home: Seq<char> },
    HomeNotDirectory { home: Seq<char> },
    NoEntry,
    TargetMissing { path: Seq<char> },
    OpenFailed { path: Seq<char>, reason: Seq<char> },
    WriteFailed { reason: Seq<char> },
}

impl View for JournalError {
    type V = ErrorView;

    open spec fn view(&self) -> ErrorView {
        match self {
            JournalError::HomeUnset => ErrorView::HomeUnset,
            JournalError::FormatUnset => ErrorView::FormatUnset,
            JournalError::HomeMissing { home } => ErrorView::HomeMissing { home: home@ },
            JournalError::HomeNotDirectory { home } => ErrorView::HomeNotDirectory { home: home@ },
            JournalError::NoEntry => ErrorView::NoEntry,
            JournalError::TargetMissing { path } => ErrorView::TargetMissing { path: path@ },
            JournalError::OpenFailed { path, reason } => ErrorView::OpenFailed { path: path@, reason: reason@ },
            JournalError::WriteFailed { reason } => ErrorView::WriteFailed { reason: reason@ },
        }
    }
}

/// How a path reads in its debug form: quoted, with backslashes, quotes and
/// control characters escaped.
pub uninterp spec fn path_debug_of(path: Seq<char>) -> Seq<char>;

/// Relies on the `Debug` impl of std's `Path` to render a path as `{:?}`
/// does; the text depends on the path alone.
#[verifier::external_body]
fn path_debug(path: &str) -> (r: String)
    ensures
        r@ == path_debug_of(path@),
{
    format!("{:?}", std::path::Path::new(path))
}

/// The message for a journal file that could not be opened, given the path
/// as it is shown and the system's reason.
pub open spec fn open_failure_text(shown_path: Seq<char>, reason: Seq<char>) -> Seq<char> {
    "Failed to open journal file "@ + shown_path + ": "@ + reason
}

/// The message for a journal file that could not be opened: `shown_path` is
/// the path as it is shown, `reason` the system's description.
pub fn open_failure_message(shown_path: &str, reason: &str) -> (r: String)
    ensures
        r@ == open_failure_text(shown_path@, reason@),
{
    let mut out = String::from_str("Failed to open journal file ");
    out.append(shown_path);
    out.append(": ");
    out.append(reason);
    out
}

/// The message reported for an error.
pub open spec fn error_text(e: ErrorView) -> Seq<char> {
    match e {
        ErrorView::HomeUnset => "JOURNAL_HOME environment variable is not set"@,
        ErrorView::FormatUnset => "JOURNAL_FORMAT environment variable is not set"@,
        ErrorView::HomeMissing { home } => "JOURNAL_HOME path does not exist: "@ + home,
        ErrorView::HomeNotDirectory { home } => "JOURNAL_HOME is not a directory: "@ + home,
        ErrorView::NoEntry => "No journal entry provided. Usage: journal <your entry text>"@,
        ErrorView::TargetMissing { path } => "Journal file does not exist: "@ + path,
        ErrorView::OpenFailed { path, reason } => open_failure_text(path_debug_of(path), reason),
        ErrorView::WriteFailed { reason } => "Failed to write to journal file: "@ + reason,
    }
}

impl JournalError {
    /// The human-readable message for this error.
    pub fn message(&self) -> (r: String)
        ensures
            r@ == error_text(self@),
    {
        match self {
            JournalError::HomeUnset => String::from_str("JOURNAL_HOME environment variable is not set"),
            JournalError::FormatUnset => String::from_str("JOURNAL_FORMAT environment variable is not set"),
            JournalError::HomeMissing { home } => {
                let mut out = String::from_str("JOURNAL_HOME path does not exist: ");
                out.append(home.as_str());
                out
            },
            JournalError::HomeNotDirectory { home } => {
                let mut out = String::from_str("JOURNAL_HOME is not a directory: ");
                out.append(home.as_str());
                out
            },
            JournalError::NoEntry => String::from_str("No journal entry provided. Usage: journal <your entry text>"),
            JournalError::TargetMissing { path } => {
                let mut out = String::from_str("Journal file does not exist: ");
                out.append(path.as_str());
                out
            },
            JournalError::OpenFailed { path, reason } => {
                let shown = path_debug(path.as_str());
                open_failure_message(shown.as_str(), reason.as_str())
            },
            JournalError::WriteFailed { reason } => {
                let mut out = String::from_str("Failed to write to journal file: ");
                out.append(reason.as_str());
                out
            },
        }
    }
}

/// Why appending the entry line failed.
#[derive(Debug)]
pub enum AppendFailure {
    /// Opening the file for appending failed, with the system's description.
    Open { reason: String },
    /// Writing the line failed, with the system's description.
    Write { reason: String },
}

/// Where an invocation stands. Each unfinished stage names the one piece of
/// outside work that comes next; the finished ones name none.
#[derive(Debug)]
pub enum Stage {
    /// Read the two configuration variables.
    Start,
    /// Inspect the home path.
    Configured { home: String, format: String },
    /// Collect the command-line arguments.
    HomeReady { home: String, format: String },
    /// Read the local clock.
    Composed { home: String, format: String, text: String },
    /// Check that the journal file at `path` exists.
    Located { path: String, line: String },
    /// Append `line` to the existing file at `path`, without creating it.
    Ready { path: String, line: String },
    /// The entry was added to `path`.
    Done { path: String },
    /// The invocation stopped.
    Failed { error: JournalError },
}

/// The mathematical value of a [`Stage`].
pub enum StageView {
    Start,
    Configured { home: Seq<char>, format: Seq<char> },
    HomeReady { home: Seq<char>, format: Seq<char> },
    Composed { home: Seq<char>, format: Seq<char>, text: Seq<char> },
    Located { path: Seq<char>, line: Seq<char> },
    Ready { path: Seq<char>, line: Seq<char> },
    Done { path: Seq<char> },
    Failed { error: ErrorView },
}

impl View for Stage {
    type V = StageView;

    open spec fn view(&self) -> StageView {
        match self {
            Stage::Start => StageView::Start,
            Stage::Configured { home, format } => StageView::Configured { home: home@, format: format@ },
            Stage::HomeReady { home, format } => StageView::HomeReady { home: home@, format: format@ },
            Stage::Composed { home, format, text } =>
                StageView::Composed { home: home@, format: format@, text: text@ },
            Stage::Located { path, line } => StageView::Located { path: path@, line: line@ },
            Stage::Ready { path, line } => StageView::Ready { path: path@, line: line@ },
            Stage::Done { path } => StageView::Done { path: path@ },
            Stage::Failed { error } => StageView::Failed { error: error@ },
        }
    }
}

/// What the outside work of a stage found.
#[derive(Debug)]
pub enum Event {
    /// The two configuration variables, each if set.
    Config { home: Option<String>, format: Option<String> },
    /// Whether something exists at the home path, and whether it is a directory.
    HomeStatus { exists: bool, is_dir: bool },
    /// The command-line arguments after the program name.
    Arguments { args: Vec<String> },
    /// The local time.
    Clock { now: Moment },
    /// Whether the journal file exists.
    TargetStatus { exists: bool },
    /// How the append went.
    Appended { outcome: Result<(), AppendFailure> },
}

impl Event {
    /// What reading the local clock found: the current moment, with its month,
    /// day, hour and minute in range.
    pub fn clock() -> (r: Event)
        ensures
            r matches Event::Clock { now } && now.wf(),
    {
        Event::Clock { now: local_now() }
    }
}

/// Whether an invocation has finished: no outside work is left to do.
pub open spec fn is_finished(s: StageView) -> bool {
    s is Done || s is Failed
}

/// The stage that follows `s` once `e` has been found. An event that does not
/// answer the stage's work leaves the stage as it is.
pub open spec fn advance(s: StageView, e: Event) -> StageView {
    match (s, e) {
        (StageView::Start, Event::Config { home, format }) => match (home, format) {
            (None, _) => StageView::Failed { error: ErrorView::HomeUnset },
            (Some(_), None) => StageView::Failed { error: ErrorView::FormatUnset },
            (Some(h), Some(f)) => StageView::Configured { home: h@, format: f@ },
        },
        (StageView::Configured { home, format }, Event::HomeStatus { exists, is_dir }) =>
            if !exists {
                StageView::Failed { error: ErrorView::HomeMissing { home } }
            } else if !is_dir {
                StageView::Failed { error: ErrorView::HomeNotDirectory { home } }
            } else {
                StageView::HomeReady { home, format }
            },
        (StageView::HomeReady { home, format }, Event::Arguments { args }) =>
            if args@.len() == 0 {
                StageView::Failed { error: ErrorView::NoEntry }
            } else {
                StageView::Composed { home, format, text: joined(views(args@)) }
            },
        (StageView::Composed { home, format, text }, Event::Clock { now }) => StageView::Located {
            path: path_of(home, formatted(format, now)),
            line: line_of(now.hour as nat, now.minute as nat, text),
        },
        (StageView::Located { path, line }, Event::TargetStatus { exists }) =>
            if exists {
                StageView::Ready { path, line }
            } else {
                StageView::Failed { error: ErrorView::TargetMissing { path } }
            },
        (StageView::Ready { path, line }, Event::Appended { outcome }) => match outcome {
            Ok(_) => StageView::Done { path },
            Err(AppendFailure::Open { reason }) =>
                StageView::Failed { error: ErrorView::OpenFailed { path, reason: reason@ } },
            Err(AppendFailure::Write { reason }) =>
                StageView::Failed { error: ErrorView::WriteFailed { reason: reason@ } },
        },
        _ => s,
    }
}

impl Stage {
    /// Moves the invocation on by what the outside work of this stage found.
    pub fn step(self, event: Event) -> (r: Stage)
        ensures
            r@ == advance(self@, event),
    {
        match (self, event) {
            (Stage::Start, Event::Config { home, format }) => match (home, format) {
                (None, _) => Stage::Failed { error: JournalError::HomeUnset },
                (Some(_), None) => Stage::Failed { error: JournalError::FormatUnset },
                (Some(h), Some(f)) => Stage::Configured { home: h, format: f },
            },
            (Stage::Configured { home, format }, Event::HomeStatus { exists, is_dir }) => {
                if !exists {
                    Stage::Failed { error: JournalError::HomeMissing { home } }
                } else if !is_dir {
                    Stage::Failed { error: JournalError::HomeNotDirectory { home } }
                } else {
                    Stage::HomeReady { home, format }
                }
            },
            (Stage::HomeReady { home, format }, Event::Arguments { args }) => {
                match entry_text(&args) {
                    None => Stage::Failed { error: JournalError::NoEntry },
                    Some(text) => Stage::Composed { home, format, text },
                }
            },
            (Stage::Composed { home, format, text }, Event::Clock { now }) => {
                let stem = format_date(format.as_str(), &now);
                let path = journal_path(home.as_str(), stem.as_str());
                let line = entry_line(now.hour, now.minute, text.as_str());
                Stage::Located { path, line }
            },
            (Stage::Located { path, line }, Event::TargetStatus { exists }) => {
                if exists {
                    Stage::Ready { path, line }
                } else {
                    Stage::Failed { error: JournalError::TargetMissing { path } }
                }
            },
            (Stage::Ready { path, line }, Event::Appended { outcome }) => match outcome {
                Ok(_) => Stage::Done { path },
                Err(AppendFailure::Open { reason }) =>
                    Stage::Failed { error: JournalError::OpenFailed { path, reason } },
                Err(AppendFailure::Write { reason }) =>
                    Stage::Failed { error: JournalError::WriteFailed { reason } },
            },
            (s, _) => s,
        }
    }
}

/// A finished invocation stays finished: no event moves it on, so no outside
/// work follows a failure.
pub proof fn lemma_finished_stays(s: StageView, e: Event)
    requires
        is_finished(s),
    ensures
        advance(s, e) == s,
{
}

/// With either configuration variable unset the invocation fails at once,
/// before it inspects any path.
pub proof fn lemma_unset_variable_stops(home: Option<String>, format: Option<String>)
    requires
        home is None || format is None,
    ensures
        advance(StageView::Start, Event::Config { home, format }) == (StageView::Failed {
            error: if home is None { ErrorView::HomeUnset } else { ErrorView::FormatUnset },
        }),
        is_finished(advance(StageView::Start, Event::Config { home, format })),
{
}

/// A home path that exists but is not a directory ends the invocation, naming
/// the path.
pub proof fn lemma_home_not_directory_stops(home: Seq<char>, format: Seq<char>)
    ensures
        advance(
            StageView::Configured { home, format },
            Event::HomeStatus { exists: true, is_dir: false },
        ) == (StageView::Failed { error: ErrorView::HomeNotDirectory { home } }),
{
}

/// Without arguments the invocation ends with the usage error.
pub proof fn lemma_no_arguments_stops(home: Seq<char>, format: Seq<char>, args: Vec<String>)
    requires
        args@.len() == 0,
    ensures
        advance(StageView::HomeReady { home, format }, Event::Arguments { args })
            == (StageView::Failed { error: ErrorView::NoEntry }),
{
}

/// A journal file that does not exist ends the invocation, naming the path;
/// the append is never asked for.
pub proof fn lemma_missing_target_stops(path: Seq<char>, line: Seq<char>)
    ensures
        advance(StageView::Located { path, line }, Event::TargetStatus { exists: false })
            == (StageView::Failed { error: ErrorView::TargetMissing { path } }),
{
}

/// The append is asked for only right after the journal file was found to
/// exist: no other stage and event lead to it.
pub proof fn lemma_append_only_after_target_found(s: StageView, e: Event)
    requires
        advance(s, e) is Ready,
        !(s is Ready),
    ensures
        s is Located,
        e == (Event::TargetStatus { exists: true }),
{
}

/// Once the clock is read, the file is `<home>/<stem>.md` for the stem that the
/// pattern gives, and the line to append is the entry line for that hour and
/// minute with the joined text; when the append succeeds the same path is
/// reported.
pub proof fn lemma_entry_appended(home: Seq<char>, format: Seq<char>, text: Seq<char>, now: Moment)
    ensures
        advance(StageView::Composed { home, format, text }, Event::Clock { now }) == (StageView::Located {
            path: path_of(home, formatted(format, now)),
            line: line_of(now.hour as nat, now.minute as nat, text),
        }),
        advance(
            advance(
                advance(StageView::Composed { home, format, text }, Event::Clock { now }),
                Event::TargetStatus { exists: true },
            ),
            Event::Appended { outcome: Ok(()) },
        ) == (StageView::Done { path: path_of(home, formatted(format, now)) }),
{
}

} // verus!
