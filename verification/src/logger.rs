//! The agent's log file: where it is, and what one record looks like.
//! Appending the record to the file is the caller's part.

use vstd::prelude::*;
use crate::text::{decimal, push_decimal};

verus! {

/// A log that appends timestamped lines to a file.
pub struct FileLogger {
    path: String,
}

/// One record: "[<unix seconds>] <message>" and a line break.
pub open spec fn log_record(ts: nat, message: Seq<char>) -> Seq<char> {
    "["@ + decimal(ts) + "] "@ + message + "\n"@
}

impl FileLogger {
    /// A logger writing to the file at `path`.
    pub fn new(path: String) -> (l: Self)
        ensures
            l.log_path() == path@,
    {
        FileLogger { path }
    }

    /// The path of the log file.
    pub closed spec fn log_path(&self) -> Seq<char> {
        self.path@
    }

    /// The path of the log file.
    pub fn path(&self) -> (p: &str)
        ensures
            p@ == self.log_path(),
    {
        self.path.as_str()
    }

    /// The record for `message` logged at `ts` seconds since the epoch.
    pub fn record(ts: u64, message: &str) -> (line: String)
        ensures
            line@ == log_record(ts as nat, message@),
    {
        let mut line = String::from_str("[");
        push_decimal(&mut line, ts as u128);
        line.append("] ");
        line.append(message);
        line.append("\n");
        line
    }
}

} // verus!
