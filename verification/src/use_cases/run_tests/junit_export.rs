//! The JUnit report export of a test run: which targets are accepted, and
//! that a report has something to publish.
//!
//! Creating the parent directory, removing a stale report and publishing the
//! staged file are file-system work done around these checks.

use vstd::prelude::*;

use crate::support::error::AppError;
use crate::support::path::{file_name, path_file_name};
use crate::support::text::{append_str, chars_of, string_of};

verus! {

/// A checked JUnit export target.
#[derive(Debug, Clone, PartialEq, Eq)]
pub struct JunitExport {
    target: String,
}

/// `JUnit export target must name a file`
pub open spec fn names_no_file_text() -> Seq<char> {
    "JUnit export target must name a file"@
}

/// `JUnit export target is a directory: <target>`
pub open spec fn is_directory_text(target: Seq<char>) -> Seq<char> {
    "JUnit export target is a directory: "@ + target
}

/// `cannot export empty JUnit report`
pub open spec fn empty_report_text() -> Seq<char> {
    "cannot export empty JUnit report"@
}

impl JunitExport {
    /// The target this export writes to.
    pub closed spec fn spec_target(&self) -> Seq<char> {
        self.target@
    }

    /// Accepts a target that names a file and is not a directory
    /// (`is_dir` says what the file system holds at `target`).
    pub fn prepare(target: &str, is_dir: bool) -> (r: Result<Self, AppError>)
        ensures
            file_name(target@) is None ==> (r matches Err(AppError::Validation(m)) && m@ == names_no_file_text()),
            file_name(target@) is Some && is_dir ==> (r matches Err(AppError::Validation(m)) && m@
                == is_directory_text(target@)),
            file_name(target@) is Some && !is_dir ==> (r matches Ok(e) && e.spec_target() == target@),
    {
        proof {
            reveal_strlit("JUnit export target must name a file");
            reveal_strlit("JUnit export target is a directory: ");
        }
        if path_file_name(target).is_none() {
            return Err(AppError::Validation(String::from_str("JUnit export target must name a file")));
        }
        if is_dir {
            let mut out: Vec<char> = Vec::new();
            append_str(&mut out, "JUnit export target is a directory: ");
            append_str(&mut out, target);
            return Err(AppError::Validation(string_of(out.as_slice())));
        }
        Ok(Self { target: string_of(chars_of(target).as_slice()) })
    }

    /// The target path.
    pub fn target(&self) -> (t: &str)
        ensures
            t@ == self.spec_target(),
    {
        self.target.as_str()
    }

    /// A report can be published only when it holds something.
    pub fn check_report(&self, bytes: &[u8]) -> (r: Result<(), AppError>)
        ensures
            bytes@.len() == 0 <==> r is Err,
            r matches Err(e) ==> (e matches AppError::Runtime(m) && m@ == empty_report_text()),
    {
        proof {
            reveal_strlit("cannot export empty JUnit report");
        }
        if bytes.len() == 0 {
            Err(AppError::Runtime(String::from_str("cannot export empty JUnit report")))
        } else {
            Ok(())
        }
    }
}

} // verus!
