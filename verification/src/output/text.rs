//! Presenters for human-readable and JSON output.
//!
//! The library decides what a line says; writing it to a stream is left to
//! the program that owns the standard streams.

use vstd::prelude::*;

use crate::support::text::{append_str, string_of};

verus! {

/// Text presenter; colours its status words unless `no_color` is set.
pub struct TextPresenter {
    pub no_color: bool,
}

/// JSON presenter; prints envelopes as pretty JSON.
pub struct JsonPresenter;

impl TextPresenter {
    /// The line printed to stdout for a success message.
    pub fn ok_line(&self, msg: &str) -> (line: String)
        ensures
            line@ == (if self.no_color {
                "OK: "@
            } else {
                "\u{1b}[32mOK\u{1b}[0m: "@
            }) + msg@,
    {
        let mut out: Vec<char> = Vec::new();
        if self.no_color {
            append_str(&mut out, "OK: ");
        } else {
            append_str(&mut out, "\u{1b}[32mOK\u{1b}[0m: ");
        }
        append_str(&mut out, msg);
        string_of(out.as_slice())
    }

    /// The line printed to stderr for an error message.
    pub fn error_line(&self, msg: &str) -> (line: String)
        ensures
            line@ == (if self.no_color {
                "ERROR: "@
            } else {
                "\u{1b}[31mERROR\u{1b}[0m: "@
            }) + msg@,
    {
        let mut out: Vec<char> = Vec::new();
        if self.no_color {
            append_str(&mut out, "ERROR: ");
        } else {
            append_str(&mut out, "\u{1b}[31mERROR\u{1b}[0m: ");
        }
        append_str(&mut out, msg);
        string_of(out.as_slice())
    }

    /// The line printed to stdout for an informational message.
    pub fn info_line(&self, msg: &str) -> (line: String)
        ensures
            line@ == msg@,
    {
        msg.to_owned()
    }
}

} // verus!
