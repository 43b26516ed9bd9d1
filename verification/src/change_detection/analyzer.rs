//! Change detection of one source-set against its stored file states.

use vstd::prelude::*;

use crate::change_detection::file_state::{fs_view, FileState};
use crate::change_detection::hash_storage::{
    fs_views, has_path, lemma_lookup_at, lookup, unique_paths, FileStateView, HashStorage,
};
use crate::config::model::SourceSetConfig;

verus! {

/// How a file changed relative to the stored state.
#[derive(Debug, Clone, Copy, PartialEq, Eq, Structural)]
pub enum ChangeKind {
    /// File is new (not in storage).
    Added,
    /// File content changed (hash differs).
    Modified,
    /// File existed in storage but is now absent on disk.
    Deleted,
}

/// A single detected file change.
#[derive(Debug, Clone, PartialEq, Eq)]
pub struct FileChange {
    pub path: String,
    pub kind: ChangeKind,
    pub new_hash: Option<String>,
}

/// The plain values of a change: path, kind, new hash.
pub type FileChangeView = (Seq<char>, ChangeKind, Option<Seq<char>>);

/// The characters of an optional string.
pub open spec fn opt_str_view(o: Option<String>) -> Option<Seq<char>> {
    match o {
        Some(s) => Some(s@),
        None => None,
    }
}

/// The plain values of a change.
pub open spec fn change_view(c: FileChange) -> FileChangeView {
    (c.path@, c.kind, opt_str_view(c.new_hash))
}

/// The plain values of a sequence of changes.
pub open spec fn change_views(v: Seq<FileChange>) -> Seq<FileChangeView> {
    v.map_values(|c: FileChange| change_view(c))
}

/// The change that one scanned file makes against the stored entries, if any:
/// unknown path is `Added`, a different hash is `Modified`.
pub open spec fn change_of(f: FileStateView, stored: Seq<FileStateView>) -> Option<FileChangeView> {
    match lookup(stored, f.0) {
        None => Some((f.0, ChangeKind::Added, Some(f.2))),
        Some(s) => if s.2 != f.2 {
            Some((f.0, ChangeKind::Modified, Some(f.2)))
        } else {
            None
        },
    }
}

/// Changes of the scanned files, in scan order.
pub open spec fn scanned_changes(current: Seq<FileStateView>, stored: Seq<FileStateView>) -> Seq<
    FileChangeView,
>
    decreases current.len(),
{
    if current.len() == 0 {
        Seq::empty()
    } else {
        let prev = scanned_changes(current.drop_last(), stored);
        match change_of(current.last(), stored) {
            Some(c) => prev.push(c),
            None => prev,
        }
    }
}

/// `Deleted` changes for the stored entries whose path was not scanned, in storage order.
pub open spec fn deleted_changes(stored: Seq<FileStateView>, current: Seq<FileStateView>) -> Seq<
    FileChangeView,
>
    decreases stored.len(),
{
    if stored.len() == 0 {
        Seq::empty()
    } else {
        let prev = deleted_changes(stored.drop_last(), current);
        let s = stored.last();
        if has_path(current, s.0) {
            prev
        } else {
            prev.push((s.0, ChangeKind::Deleted, None))
        }
    }
}

/// All changes of a scan against the stored entries: those of the scanned
/// files first, then the deletions.
pub open spec fn changes_between(current: Seq<FileStateView>, stored: Seq<FileStateView>) -> Seq<
    FileChangeView,
> {
    scanned_changes(current, stored) + deleted_changes(stored, current)
}

/// Entry `j` is the last one of `v` with its path.
pub open spec fn last_of_path(v: Seq<FileStateView>, j: int) -> bool {
    forall|k: int| j < k < v.len() ==> (#[trigger] v[k]).0 != v[j].0
}

/// `stored` is what committing the scan `current` leaves: exactly the scanned
/// paths, each with the last scanned state for it.
pub open spec fn commits(current: Seq<FileStateView>, stored: Seq<FileStateView>) -> bool {
    &&& forall|p: Seq<char>| has_path(stored, p) <==> has_path(current, p)
    &&& forall|j: int|
        0 <= j < current.len() && #[trigger] last_of_path(current, j) ==> lookup(stored, current[j].0)
            == Some(current[j])
}

/// Result of analyzing one source-set for changes.
#[derive(Debug)]
pub struct SourceSetChanges {
    pub source_set_name: String,
    pub changes: Vec<FileChange>,
    /// True when the scanner failed and we fell back to "all changed".
    pub is_fallback: bool,
}

impl SourceSetChanges {
    /// Returns true if there are any changes (including fallback).
    pub fn has_changes(&self) -> (r: bool)
        ensures
            r == (self.is_fallback || self.changes@.len() > 0),
    {
        self.is_fallback || !self.changes.is_empty()
    }
}

/// Whether some file of `files` has path `path`.
fn contains_path(files: &[FileState], path: &String) -> (b: bool)
    ensures
        b == has_path(fs_views(files@), path@),
{
    let ghost v = fs_views(files@);
    let mut i: usize = 0;
    while i < files.len()
        invariant
            i <= files@.len(),
            v == fs_views(files@),
            forall|j: int| 0 <= j < i ==> (#[trigger] v[j]).0 != path@,
        decreases files@.len() - i,
    {
        if files[i].path == *path {
            assert(v[i as int].0 == path@);
            return true;
        }
        assert(v[i as int] == fs_view(files@[i as int]));
        i += 1;
    }
    false
}

/// Compare scanned files against stored hashes, returning only changed entries:
/// those of the scanned files in scan order, then a `Deleted` entry for each
/// stored path that was not scanned, in storage order.
pub fn detect_changes(current: &[FileState], storage: &HashStorage) -> (changes: Vec<FileChange>)
    ensures
        change_views(changes@) == changes_between(fs_views(current@), storage@),
{
    let ghost cur = fs_views(current@);
    let mut changes: Vec<FileChange> = Vec::new();
    let mut i: usize = 0;
    while i < current.len()
        invariant
            i <= current@.len(),
            cur == fs_views(current@),
            change_views(changes@) == scanned_changes(cur.take(i as int), storage@),
        decreases current@.len() - i,
    {
        let file = &current[i];
        let ghost before = changes@;
        assert(cur.take(i + 1).drop_last() =~= cur.take(i as int));
        assert(cur.take(i + 1).last() == fs_view(*file));
        match storage.get(&file.path) {
            None => {
                changes.push(
                    FileChange {
                        path: file.path.clone(),
                        kind: ChangeKind::Added,
                        new_hash: Some(file.hash.clone()),
                    },
                );
                assert(change_views(changes@) =~= change_views(before).push(
                    change_view(changes@.last()),
                ));
            },
            Some(stored) => {
                if !(stored.hash == file.hash) {
                    changes.push(
                        FileChange {
                            path: file.path.clone(),
                            kind: ChangeKind::Modified,
                            new_hash: Some(file.hash.clone()),
                        },
                    );
                    assert(change_views(changes@) =~= change_views(before).push(
                        change_view(changes@.last()),
                    ));
                }
            },
        }
        i += 1;
    }
    assert(cur.take(current@.len() as int) =~= cur);
    let entries = storage.entries();
    let ghost st = storage@;
    let ghost scanned = change_views(changes@);
    let mut k: usize = 0;
    while k < entries.len()
        invariant
            k <= entries@.len(),
            fs_views(entries@) == st,
            cur == fs_views(current@),
            change_views(changes@) == scanned + deleted_changes(st.take(k as int), cur),
        decreases entries@.len() - k,
    {
        let stored = &entries[k];
        let ghost before = changes@;
        assert(st.take(k + 1).drop_last() =~= st.take(k as int));
        assert(st.take(k + 1).last() == fs_view(*stored));
        if !contains_path(current, &stored.path) {
            changes.push(
                FileChange { path: stored.path.clone(), kind: ChangeKind::Deleted, new_hash: None },
            );
            assert(change_views(changes@) =~= change_views(before).push(
                change_view(changes@.last()),
            ));
        }
        k += 1;
    }
    assert(st.take(entries@.len() as int) =~= st);
    changes
}

/// Update storage with the current scan results after a successful build:
/// entries whose path was not scanned are dropped, then every scanned state is
/// stored.
pub fn commit_changes(current_files: &[FileState], storage: &mut HashStorage)
    ensures
        commits(fs_views(current_files@), final(storage)@),
{
    let ghost cur = fs_views(current_files@);
    let ghost old_v = storage@;
    let mut stale: Vec<String> = Vec::new();
    let entries = storage.entries();
    let mut i: usize = 0;
    while i < entries.len()
        invariant
            i <= entries@.len(),
            fs_views(entries@) == old_v,
            cur == fs_views(current_files@),
            forall|k: int|
                0 <= k < stale@.len() ==> has_path(old_v, #[trigger] stale@[k]@) && !has_path(
                    cur,
                    stale@[k]@,
                ),
            forall|k: int|
                0 <= k < i && !has_path(cur, (#[trigger] old_v[k]).0) ==> exists|m: int|
                    0 <= m < stale@.len() && (#[trigger] stale@[m])@ == old_v[k].0,
        decreases entries@.len() - i,
    {
        let stored = &entries[i];
        assert(old_v[i as int] == fs_view(*stored));
        if !contains_path(current_files, &stored.path) {
            let ghost before = stale@;
            stale.push(stored.path.clone());
            assert(stale@[before.len() as int]@ == old_v[i as int].0);
            assert forall|k: int|
                0 <= k < i + 1 && !has_path(cur, (#[trigger] old_v[k]).0) implies exists|m: int|
                0 <= m < stale@.len() && (#[trigger] stale@[m])@ == old_v[k].0 by {
                if k < i {
                    let m = choose|m: int| 0 <= m < before.len() && (#[trigger] before[m])@ == old_v[k].0;
                    assert(stale@[m] == before[m]);
                } else {
                    assert(stale@[before.len() as int]@ == old_v[k].0);
                }
            }
            assert(has_path(old_v, old_v[i as int].0));
        }
        i += 1;
    }
    let mut m: usize = 0;
    while m < stale.len()
        invariant
            m <= stale@.len(),
            storage.wf(),
            cur == fs_views(current_files@),
            forall|k: int|
                0 <= k < stale@.len() ==> has_path(old_v, #[trigger] stale@[k]@) && !has_path(
                    cur,
                    stale@[k]@,
                ),
            forall|k: int|
                0 <= k < old_v.len() && !has_path(cur, (#[trigger] old_v[k]).0) ==> exists|m: int|
                    0 <= m < stale@.len() && (#[trigger] stale@[m])@ == old_v[k].0,
            forall|p: Seq<char>|
                has_path(storage@, p) <==> (has_path(old_v, p) && !(exists|q: int|
                    0 <= q < m && (#[trigger] stale@[q])@ == p)),
            forall|p: Seq<char>| #[trigger]
                has_path(storage@, p) ==> lookup(storage@, p) == lookup(old_v, p),
        decreases stale@.len() - m,
    {
        let ghost before = storage@;
        storage.remove(&stale[m]);
        assert forall|p: Seq<char>|
            has_path(storage@, p) <==> (has_path(old_v, p) && !(exists|q: int|
                0 <= q < m + 1 && (#[trigger] stale@[q])@ == p)) by {
            if exists|q: int| 0 <= q < m + 1 && (#[trigger] stale@[q])@ == p {
                let q = choose|q: int| 0 <= q < m + 1 && (#[trigger] stale@[q])@ == p;
                if q < m {
                    assert(!has_path(before, p));
                }
            } else {
                assert(p != stale@[m as int]@);
            }
        }
        m += 1;
    }
    assert forall|p: Seq<char>| has_path(storage@, p) <==> (has_path(old_v, p) && has_path(cur, p)) by {
        if has_path(storage@, p) {
            if !has_path(cur, p) {
                let k = choose|k: int| 0 <= k < old_v.len() && (#[trigger] old_v[k]).0 == p;
                assert(!has_path(cur, old_v[k].0));
                let q = choose|q: int| 0 <= q < stale@.len() && (#[trigger] stale@[q])@ == old_v[k].0;
                assert(false);
            }
        }
        if has_path(old_v, p) && has_path(cur, p) {
            if exists|q: int| 0 <= q < stale@.len() && (#[trigger] stale@[q])@ == p {
                let q = choose|q: int| 0 <= q < stale@.len() && (#[trigger] stale@[q])@ == p;
                assert(!has_path(cur, stale@[q]@));
            }
        }
    }
    let mut j: usize = 0;
    while j < current_files.len()
        invariant
            j <= current_files@.len(),
            storage.wf(),
            cur == fs_views(current_files@),
            forall|p: Seq<char>|
                has_path(storage@, p) <==> ((has_path(old_v, p) && has_path(cur, p)) || has_path(
                    cur.take(j as int),
                    p,
                )),
            forall|a: int|
                0 <= a < j && #[trigger] last_of_path(cur.take(j as int), a) ==> lookup(
                    storage@,
                    cur[a].0,
                ) == Some(cur[a]),
        decreases current_files@.len() - j,
    {
        let ghost before = storage@;
        let src = &current_files[j];
        let file = FileState::new(src.path.clone(), src.mtime, src.hash.clone());
        assert(fs_view(file) == cur[j as int]);
        storage.insert(file);
        let ghost t = cur.take(j + 1);
        assert forall|p: Seq<char>|
            has_path(storage@, p) <==> ((has_path(old_v, p) && has_path(cur, p)) || has_path(
                t,
                p,
            )) by {
            assert(has_path(before, p) <==> ((has_path(old_v, p) && has_path(cur, p)) || has_path(
                cur.take(j as int),
                p,
            )));
            assert(has_path(storage@, p) <==> (has_path(before, p) || p == cur[j as int].0));
            if has_path(cur.take(j as int), p) {
                let k = choose|k: int| 0 <= k < j && (#[trigger] cur.take(j as int)[k]).0 == p;
                assert(t[k].0 == p);
            }
            if has_path(t, p) {
                let k = choose|k: int| 0 <= k < j + 1 && (#[trigger] t[k]).0 == p;
                if k < j {
                    assert(cur.take(j as int)[k].0 == p);
                }
            }
            if p == cur[j as int].0 {
                assert(t[j as int].0 == p);
            }
        }
        assert forall|a: int| 0 <= a < j + 1 && #[trigger] last_of_path(t, a) implies lookup(
            storage@,
            cur[a].0,
        ) == Some(cur[a]) by {
            if a < j {
                assert(t[j as int].0 != t[a].0);
                assert(last_of_path(cur.take(j as int), a)) by {
                    assert forall|k: int| a < k < j implies (#[trigger] cur.take(j as int)[k]).0
                        != cur.take(j as int)[a].0 by {
                        assert(t[k].0 != t[a].0);
                    }
                }
            }
        }
        j += 1;
    }
    assert(cur.take(current_files@.len() as int) =~= cur);
    assert forall|p: Seq<char>| has_path(storage@, p) <==> has_path(cur, p) by {}
}

/// Analyse changes of one source-set from the result of scanning its
/// directory. On scan error, falls back to reporting the whole source-set as
/// changed.
pub fn analyze(
    source_set: &SourceSetConfig,
    scan: Result<Vec<FileState>, String>,
    storage: &HashStorage,
) -> (r: SourceSetChanges)
    ensures
        r.source_set_name@ == source_set.name@,
        match scan {
            Ok(files) => !r.is_fallback && change_views(r.changes@) == changes_between(
                fs_views(files@),
                storage@,
            ),
            Err(_) => r.is_fallback && r.changes@.len() == 0,
        },
{
    match scan {
        Ok(current_files) => {
            let changes = detect_changes(current_files.as_slice(), storage);
            SourceSetChanges {
                source_set_name: source_set.name.clone(),
                changes,
                is_fallback: false,
            }
        },
        Err(_) => SourceSetChanges {
            source_set_name: source_set.name.clone(),
            changes: Vec::new(),
            is_fallback: true,
        },
    }
}

/// Commit the result of re-scanning a source-set into `storage`.
/// Returns `Err` only if the scan itself failed; storage is then unchanged.
pub fn rescan_and_commit(scan: Result<Vec<FileState>, String>, storage: &mut HashStorage) -> (r:
    Result<(), String>)
    ensures
        match scan {
            Ok(files) => r is Ok && commits(fs_views(files@), final(storage)@),
            Err(e) => r == Err::<(), String>(e) && final(storage)@ == old(storage)@,
        },
{
    match scan {
        Ok(files) => {
            commit_changes(files.as_slice(), storage);
            Ok(())
        },
        Err(e) => Err(e),
    }
}

/// Scanned files with distinct paths.
proof fn lemma_no_scanned_changes(current: Seq<FileStateView>, stored: Seq<FileStateView>)
    requires
        forall|i: int| 0 <= i < current.len() ==> lookup(stored, (#[trigger] current[i]).0) == Some(
            current[i],
        ),
    ensures
        scanned_changes(current, stored) == Seq::<FileChangeView>::empty(),
    decreases current.len(),
{
    if current.len() > 0 {
        let d = current.drop_last();
        assert forall|i: int| 0 <= i < d.len() implies lookup(stored, (#[trigger] d[i]).0) == Some(
            d[i],
        ) by {
            assert(d[i] == current[i]);
        }
        lemma_no_scanned_changes(d, stored);
        assert(lookup(stored, current[current.len() - 1].0) == Some(current[current.len() - 1]));
    }
}

proof fn lemma_no_deleted_changes(stored: Seq<FileStateView>, current: Seq<FileStateView>)
    requires
        forall|i: int| 0 <= i < stored.len() ==> has_path(current, (#[trigger] stored[i]).0),
    ensures
        deleted_changes(stored, current) == Seq::<FileChangeView>::empty(),
    decreases stored.len(),
{
    if stored.len() > 0 {
        let d = stored.drop_last();
        assert forall|i: int| 0 <= i < d.len() implies has_path(current, (#[trigger] d[i]).0) by {
            assert(d[i] == stored[i]);
        }
        lemma_no_deleted_changes(d, current);
        assert(has_path(current, stored[stored.len() - 1].0));
    }
}

/// After a scan with distinct paths is committed, the storage holds exactly
/// the scanned states, and analysing the same scan again finds no change.
pub proof fn law_commit_then_no_changes(current: Seq<FileStateView>, stored: Seq<FileStateView>)
    requires
        unique_paths(current),
        unique_paths(stored),
        commits(current, stored),
    ensures
        forall|p: Seq<char>| lookup(stored, p) == lookup(current, p),
        changes_between(current, stored) == Seq::<FileChangeView>::empty(),
{
    assert forall|i: int| 0 <= i < current.len() implies lookup(stored, (#[trigger] current[i]).0)
        == Some(current[i]) by {
        assert(last_of_path(current, i));
    }
    assert forall|p: Seq<char>| lookup(stored, p) == lookup(current, p) by {
        if has_path(current, p) {
            let i = choose|i: int| 0 <= i < current.len() && (#[trigger] current[i]).0 == p;
            lemma_lookup_at(current, i);
        }
    }
    lemma_no_scanned_changes(current, stored);
    assert forall|i: int| 0 <= i < stored.len() implies has_path(current, (#[trigger] stored[i]).0) by {
        assert(has_path(stored, stored[i].0));
    }
    lemma_no_deleted_changes(stored, current);
    assert(changes_between(current, stored) =~= Seq::<FileChangeView>::empty());
}

} // verus!
