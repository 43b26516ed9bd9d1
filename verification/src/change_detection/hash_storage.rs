//! Stored file states of one source-set, keyed by path.

use vstd::prelude::*;

use crate::change_detection::file_state::{fs_view, FileState};

verus! {

/// The plain values of a stored file state: path, mtime, hash.
pub type FileStateView = (Seq<char>, u64, Seq<char>);

/// The plain values of a sequence of file states.
pub open spec fn fs_views(v: Seq<FileState>) -> Seq<FileStateView> {
    v.map_values(|f: FileState| fs_view(f))
}

/// No two entries share a path.
pub open spec fn unique_paths(v: Seq<FileStateView>) -> bool {
    forall|i: int, j: int| 0 <= i < j < v.len() ==> #[trigger] v[i].0 != #[trigger] v[j].0
}

/// Some entry has path `p`.
pub open spec fn has_path(v: Seq<FileStateView>, p: Seq<char>) -> bool {
    exists|i: int| 0 <= i < v.len() && (#[trigger] v[i]).0 == p
}

/// The entry with path `p`, if any.
pub open spec fn lookup(v: Seq<FileStateView>, p: Seq<char>) -> Option<FileStateView> {
    if has_path(v, p) {
        Some(v[choose|i: int| 0 <= i < v.len() && (#[trigger] v[i]).0 == p])
    } else {
        None
    }
}

/// With unique paths, the entry at a position is the one found by its path.
pub proof fn lemma_lookup_at(v: Seq<FileStateView>, i: int)
    requires
        unique_paths(v),
        0 <= i < v.len(),
    ensures
        lookup(v, v[i].0) == Some(v[i]),
{
    assert(has_path(v, v[i].0));
    let j = choose|j: int| 0 <= j < v.len() && (#[trigger] v[j]).0 == v[i].0;
    if j != i {
        if j < i {
            assert(v[j].0 != v[i].0);
        } else {
            assert(v[i].0 != v[j].0);
        }
    }
}

/// The position of the entry for `path`, if there is one.
fn position(entries: &Vec<FileState>, path: &String) -> (r: Option<usize>)
    ensures
        match r {
            Some(i) => i < fs_views(entries@).len() && fs_views(entries@)[i as int].0 == path@,
            None => !has_path(fs_views(entries@), path@),
        },
{
    let mut i: usize = 0;
    while i < entries.len()
        invariant
            i <= entries@.len(),
            forall|j: int| 0 <= j < i ==> (#[trigger] fs_views(entries@)[j]).0 != path@,
        decreases entries@.len() - i,
    {
        if entries[i].path == *path {
            assert(fs_views(entries@)[i as int] == fs_view(entries@[i as int]));
            return Some(i);
        }
        assert(fs_views(entries@)[i as int] == fs_view(entries@[i as int]));
        i += 1;
    }
    None
}

/// Stores `file` in `entries`, replacing the entry for its path if there is one.
fn insert_entry(entries: &mut Vec<FileState>, file: FileState)
    requires
        unique_paths(fs_views(old(entries)@)),
    ensures
        unique_paths(fs_views(final(entries)@)),
        lookup(fs_views(final(entries)@), file.path@) == Some(fs_view(file)),
        forall|p: Seq<char>| p != file.path@ ==> lookup(fs_views(final(entries)@), p) == lookup(fs_views(old(entries)@), p),
        forall|p: Seq<char>|
            has_path(fs_views(final(entries)@), p) <==> (has_path(fs_views(old(entries)@), p) || p == file.path@),
{
    let ghost old_v = fs_views(entries@);
    let ghost f = fs_view(file);
    match position(entries, &file.path) {
        Some(i) => {
            entries.set(i, file);
            assert(fs_views(entries@) =~= old_v.update(i as int, f));
            assert(unique_paths(fs_views(entries@))) by {
                assert forall|a: int, b: int| 0 <= a < b < fs_views(entries@).len() implies #[trigger] fs_views(entries@)[a].0
                    != #[trigger] fs_views(entries@)[b].0 by {
                    assert(old_v[a].0 != old_v[b].0);
                }
            }
            proof {
                lemma_lookup_at(fs_views(entries@), i as int);
            }
            assert forall|p: Seq<char>| p != f.0 implies lookup(fs_views(entries@), p) == lookup(old_v, p) by {
                assert(has_path(fs_views(entries@), p) == has_path(old_v, p)) by {
                    if has_path(fs_views(entries@), p) {
                        let k = choose|k: int| 0 <= k < fs_views(entries@).len() && (#[trigger] fs_views(entries@)[k]).0 == p;
                        assert(old_v[k].0 == p);
                    }
                    if has_path(old_v, p) {
                        let k = choose|k: int| 0 <= k < old_v.len() && (#[trigger] old_v[k]).0 == p;
                        assert(fs_views(entries@)[k].0 == p);
                    }
                }
                if has_path(old_v, p) {
                    let k = choose|k: int| 0 <= k < old_v.len() && (#[trigger] old_v[k]).0 == p;
                    lemma_lookup_at(old_v, k);
                    lemma_lookup_at(fs_views(entries@), k);
                }
            }
            assert forall|p: Seq<char>| has_path(fs_views(entries@), p) <==> (has_path(old_v, p) || p == f.0) by {
                if has_path(fs_views(entries@), p) {
                    let k = choose|k: int| 0 <= k < fs_views(entries@).len() && (#[trigger] fs_views(entries@)[k]).0 == p;
                    if k != i {
                        assert(old_v[k].0 == p);
                    }
                }
                if has_path(old_v, p) {
                    let k = choose|k: int| 0 <= k < old_v.len() && (#[trigger] old_v[k]).0 == p;
                    if k != i {
                        assert(fs_views(entries@)[k].0 == p);
                    } else {
                        assert(fs_views(entries@)[i as int].0 == p);
                    }
                }
                if p == f.0 {
                    assert(fs_views(entries@)[i as int].0 == p);
                }
            }
        },
        None => {
            entries.push(file);
            assert(fs_views(entries@) =~= old_v.push(f));
            assert(unique_paths(fs_views(entries@))) by {
                assert forall|a: int, b: int| 0 <= a < b < fs_views(entries@).len() implies #[trigger] fs_views(entries@)[a].0
                    != #[trigger] fs_views(entries@)[b].0 by {
                    if b == old_v.len() {
                        if fs_views(entries@)[a].0 == f.0 {
                            assert(old_v[a].0 == f.0);
                        }
                    } else {
                        assert(old_v[a].0 != old_v[b].0);
                    }
                }
            }
            proof {
                lemma_lookup_at(fs_views(entries@), old_v.len() as int);
            }
            assert forall|p: Seq<char>| p != f.0 implies lookup(fs_views(entries@), p) == lookup(old_v, p) by {
                assert(has_path(fs_views(entries@), p) == has_path(old_v, p)) by {
                    if has_path(fs_views(entries@), p) {
                        let k = choose|k: int| 0 <= k < fs_views(entries@).len() && (#[trigger] fs_views(entries@)[k]).0 == p;
                        assert(k < old_v.len());
                        assert(old_v[k].0 == p);
                    }
                    if has_path(old_v, p) {
                        let k = choose|k: int| 0 <= k < old_v.len() && (#[trigger] old_v[k]).0 == p;
                        assert(fs_views(entries@)[k].0 == p);
                    }
                }
                if has_path(old_v, p) {
                    let k = choose|k: int| 0 <= k < old_v.len() && (#[trigger] old_v[k]).0 == p;
                    lemma_lookup_at(old_v, k);
                    lemma_lookup_at(fs_views(entries@), k);
                }
            }
            assert forall|p: Seq<char>| has_path(fs_views(entries@), p) <==> (has_path(old_v, p) || p == f.0) by {
                if has_path(fs_views(entries@), p) {
                    let k = choose|k: int| 0 <= k < fs_views(entries@).len() && (#[trigger] fs_views(entries@)[k]).0 == p;
                    if k < old_v.len() {
                        assert(old_v[k].0 == p);
                    }
                }
                if has_path(old_v, p) {
                    let k = choose|k: int| 0 <= k < old_v.len() && (#[trigger] old_v[k]).0 == p;
                    assert(fs_views(entries@)[k].0 == p);
                }
                if p == f.0 {
                    assert(fs_views(entries@)[old_v.len() as int].0 == p);
                }
            }
        },
    }
}

/// Drops the entry for `path` from `entries`, if there is one; the others keep their order.
fn remove_entry(entries: &mut Vec<FileState>, path: &String)
    requires
        unique_paths(fs_views(old(entries)@)),
    ensures
        unique_paths(fs_views(final(entries)@)),
        !has_path(fs_views(final(entries)@), path@),
        forall|p: Seq<char>| p != path@ ==> lookup(fs_views(final(entries)@), p) == lookup(fs_views(old(entries)@), p),
        forall|p: Seq<char>| has_path(fs_views(final(entries)@), p) <==> (has_path(fs_views(old(entries)@), p) && p != path@),
{
    let ghost old_v = fs_views(entries@);
    match position(entries, path) {
        Some(i) => {
            let _ = entries.remove(i);
            assert(fs_views(entries@) =~= old_v.remove(i as int));
            assert(unique_paths(fs_views(entries@))) by {
                assert forall|a: int, b: int| 0 <= a < b < fs_views(entries@).len() implies #[trigger] fs_views(entries@)[a].0
                    != #[trigger] fs_views(entries@)[b].0 by {
                    let a2 = if a < i { a } else { a + 1 };
                    let b2 = if b < i { b } else { b + 1 };
                    assert(fs_views(entries@)[a] == old_v[a2]);
                    assert(fs_views(entries@)[b] == old_v[b2]);
                    assert(old_v[a2].0 != old_v[b2].0);
                }
            }
            assert forall|p: Seq<char>| has_path(fs_views(entries@), p) <==> (has_path(old_v, p) && p != path@) by {
                if has_path(fs_views(entries@), p) {
                    let k = choose|k: int| 0 <= k < fs_views(entries@).len() && (#[trigger] fs_views(entries@)[k]).0 == p;
                    let k2 = if k < i { k } else { k + 1 };
                    assert(old_v[k2].0 == p);
                    if p == path@ {
                        assert(old_v[i as int].0 == path@);
                        assert(k2 != i);
                    }
                }
                if has_path(old_v, p) && p != path@ {
                    let k = choose|k: int| 0 <= k < old_v.len() && (#[trigger] old_v[k]).0 == p;
                    assert(k != i);
                    let k2 = if k < i { k } else { k - 1 };
                    assert(fs_views(entries@)[k2].0 == p);
                }
            }
            assert forall|p: Seq<char>| p != path@ implies lookup(fs_views(entries@), p) == lookup(old_v, p) by {
                if has_path(old_v, p) {
                    let k = choose|k: int| 0 <= k < old_v.len() && (#[trigger] old_v[k]).0 == p;
                    assert(k != i);
                    let k2 = if k < i { k } else { k - 1 };
                    assert(fs_views(entries@)[k2] == old_v[k]);
                    lemma_lookup_at(old_v, k);
                    lemma_lookup_at(fs_views(entries@), k2);
                }
            }
        },
        None => {},
    }
}

/// Stored file states of a source-set: one entry per path, in insertion order.
#[derive(Debug, PartialEq, Eq)]
pub struct HashStorage {
    entries: Vec<FileState>,
}

impl View for HashStorage {
    type V = Seq<FileStateView>;

    closed spec fn view(&self) -> Seq<FileStateView> {
        fs_views(self.entries@)
    }
}

impl HashStorage {
    /// No two stored entries share a path; every storage keeps this.
    #[verifier::type_invariant]
    closed spec fn paths_unique(self) -> bool {
        unique_paths(fs_views(self.entries@))
    }

    /// Paths are unique. This holds of every storage; the methods state it
    /// for their callers.
    pub open spec fn wf(&self) -> bool {
        unique_paths(self@)
    }

    /// An empty storage.
    pub fn new() -> (s: Self)
        ensures
            s@ == Seq::<FileStateView>::empty(),
            s.wf(),
    {
        let s = Self { entries: Vec::new() };
        assert(s@ =~= Seq::<FileStateView>::empty());
        s
    }

    /// The stored entries, in order.
    pub fn entries(&self) -> (v: &Vec<FileState>)
        ensures
            fs_views(v@) == self@,
            self.wf(),
    {
        proof {
            use_type_invariant(self);
        }
        &self.entries
    }

    /// Number of stored entries.
    pub fn len(&self) -> (n: usize)
        ensures
            n == self@.len(),
    {
        self.entries.len()
    }

    /// The entry stored for `path`.
    pub fn get(&self, path: &String) -> (r: Option<&FileState>)
        ensures
            self.wf(),
            match r {
                Some(f) => lookup(self@, path@) == Some(fs_view(*f)),
                None => lookup(self@, path@) is None,
            },
    {
        proof {
            use_type_invariant(self);
        }
        match position(&self.entries, path) {
            Some(i) => {
                proof {
                    lemma_lookup_at(self@, i as int);
                }
                Some(&self.entries[i])
            },
            None => None,
        }
    }

    /// Stores `file`, replacing the entry for its path if there is one.
    pub fn insert(&mut self, file: FileState)
        ensures
            final(self).wf(),
            lookup(final(self)@, file.path@) == Some(fs_view(file)),
            forall|p: Seq<char>| p != file.path@ ==> lookup(final(self)@, p) == lookup(old(self)@, p),
            forall|p: Seq<char>|
                has_path(final(self)@, p) <==> (has_path(old(self)@, p) || p == file.path@),
    {
        proof {
            use_type_invariant(&*self);
        }
        let mut entries: Vec<FileState> = Vec::new();
        std::mem::swap(&mut entries, &mut self.entries);
        insert_entry(&mut entries, file);
        self.entries = entries;
    }

    /// Drops the entry for `path`, if there is one; the others keep their order.
    pub fn remove(&mut self, path: &String)
        ensures
            final(self).wf(),
            !has_path(final(self)@, path@),
            forall|p: Seq<char>| p != path@ ==> lookup(final(self)@, p) == lookup(old(self)@, p),
            forall|p: Seq<char>| has_path(final(self)@, p) <==> (has_path(old(self)@, p) && p != path@),
    {
        proof {
            use_type_invariant(&*self);
        }
        let mut entries: Vec<FileState> = Vec::new();
        std::mem::swap(&mut entries, &mut self.entries);
        remove_entry(&mut entries, path);
        self.entries = entries;
    }
}

impl Default for HashStorage {
    /// An empty storage.
    fn default() -> (s: Self)
        ensures
            s@ == Seq::<FileStateView>::empty(),
            s.wf(),
    {
        Self::new()
    }
}

} // verus!
