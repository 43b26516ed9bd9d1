//! Runtime context of one logical source-set.

use vstd::prelude::*;

use crate::support::path::{is_abs, is_safe_segment, join, join_path};
use crate::support::text::{append_str, chars_of, string_of};

verus! {

/// Runtime context for one logical source-set.
#[derive(Debug, Clone, PartialEq, Eq)]
pub struct SourceSetContext {
    /// Logical name (matches `SourceSetConfig.name`).
    name: String,
    /// Absolute root directory of the sources.
    path: String,
    /// Names the hash-storage file (`workPath/hash-storages/<key>.redb`).
    storage_key: String,
}

impl View for SourceSetContext {
    /// Name, root directory and storage key.
    type V = (Seq<char>, Seq<char>, Seq<char>);

    closed spec fn view(&self) -> (Seq<char>, Seq<char>, Seq<char>) {
        (self.name@, self.path@, self.storage_key@)
    }
}

/// Where the hash storage of a context lives under a work path.
pub open spec fn spec_storage_path(work: Seq<char>, key: Seq<char>) -> Seq<char> {
    join_path(join_path(work, "hash-storages"@), key + ".redb"@)
}

impl SourceSetContext {
    /// A context for sources under an absolute `path`, whose hash storage is
    /// named by `storage_key`, a single safe path segment.
    pub fn new(name: &str, path: &str, storage_key: &str) -> (ctx: Self)
        requires
            is_abs(path@),
            is_safe_segment(storage_key@),
        ensures
            ctx@ == (name@, path@, storage_key@),
    {
        Self {
            name: string_of(chars_of(name).as_slice()),
            path: string_of(chars_of(path).as_slice()),
            storage_key: string_of(chars_of(storage_key).as_slice()),
        }
    }

    /// Logical name.
    pub fn name(&self) -> (s: &str)
        ensures
            s@ == self@.0,
    {
        self.name.as_str()
    }

    /// Root directory of the sources.
    pub fn path(&self) -> (s: &str)
        ensures
            s@ == self@.1,
    {
        self.path.as_str()
    }

    /// Path of the hash-storage file for this context.
    pub fn storage_path(&self, work_path: &str) -> (p: String)
        ensures
            p@ == spec_storage_path(work_path@, self@.2),
    {
        let dir = join(work_path, "hash-storages");
        let mut file = chars_of(self.storage_key.as_str());
        append_str(&mut file, ".redb");
        let file_name = string_of(file.as_slice());
        join(dir.as_str(), file_name.as_str())
    }
}

} // verus!
