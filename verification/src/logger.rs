//! The durable log: one timestamped line per record.

use vstd::prelude::*;
use crate::clock::{format_at, now, text_of, written, Moment};

verus! {

/// Where records go.
#[derive(Clone, Debug)]
pub struct Logger {
    pub log_file: String,
}

/// A record as it stands in the log: the time in square brackets, a colon,
/// the message, and a line feed.
pub open spec fn record_line(timestamp: Seq<char>, message: Seq<char>) -> Seq<char> {
    seq!['['] + timestamp + seq![']', ':', ' '] + message + seq!['\n']
}

impl Logger {
    /// A log that is kept in the file at `log_file`.
    pub fn new(log_file: String) -> (r: Logger)
        ensures
            r.log_file == log_file,
    {
        Logger { log_file }
    }

    /// The line to append for `message`, written now; `None` where the
    /// time cannot be written.
    pub fn log(&self, message: &str) -> (r: Option<String>)
        ensures
            exists|at: Moment| text_of(r) == #[trigger] record_at(at, message@),
    {
        let at = now();
        let r = self.log_at(at, message);
        assert(text_of(r) == record_at(at, message@));
        r
    }

    /// The line to append for `message`, written at the moment `at`; `None`
    /// where the moment cannot be written.
    pub fn log_at(&self, at: Moment, message: &str) -> (r: Option<String>)
        ensures
            text_of(r) == record_at(at, message@),
    {
        match format_at(at, "%Y-%m-%d %H:%M:%S") {
            Some(timestamp) => Some(self.line(timestamp.as_str(), message)),
            None => None,
        }
    }

    /// The line to append for `message`, written at `timestamp`.
    pub fn line(&self, timestamp: &str, message: &str) -> (r: String)
        ensures
            r@ == record_line(timestamp@, message@),
    {
        proof {
            reveal_strlit("[");
            reveal_strlit("]: ");
            reveal_strlit("\n");
            assert("["@ =~= seq!['[']);
            assert("]: "@ =~= seq![']', ':', ' ']);
            assert("\n"@ =~= seq!['\n']);
        }
        let mut out = String::from_str("[");
        out.append(timestamp);
        out.append("]: ");
        out.append(message);
        out.append("\n");
        out
    }
}

/// The record for `message` at the moment `at`: the moment is written as
/// year, month, day, hour, minute and second; none where nothing is written
/// for it.
pub open spec fn record_at(at: Moment, message: Seq<char>) -> Option<Seq<char>> {
    match written(at, "%Y-%m-%d %H:%M:%S"@) {
        Some(timestamp) => Some(record_line(timestamp, message)),
        None => None,
    }
}

} // verus!
