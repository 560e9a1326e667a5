//! Appends one timestamped entry line to a date-named journal file.
//!
//! The library holds the decisions: how a file name is derived from a date
//! pattern, how the entry line is laid out, and the session that orders the
//! checks before anything is written.

pub mod text;
pub mod clock;
pub mod pattern;
pub mod entry;
pub mod session;

pub use clock::{get_clock_emoji, Moment};
pub use entry::{entry_line, entry_text, journal_path, success_message};
pub use pattern::format_date;
pub use session::{open_failure_message, AppendFailure, Event, JournalError, Stage};
