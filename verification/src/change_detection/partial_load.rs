//! Choice between a partial and a full Designer load, and the partial-load list.

use vstd::prelude::*;

use crate::change_detection::analyzer::{change_views, ChangeKind, FileChange, FileChangeView};
use crate::platform::process::strings_view;
use crate::support::path::{
    path_exists,
    chars_is_abs, components, comps_of, file_name, is_abs, join, join_path, parent, path_file_name,
    path_parent, render, render_path,
};
use crate::support::path_order::{covered_at, covers_paths, path_at, sort_dedup_paths, sorted_distinct_paths};
use crate::support::text::{
    append_chars, chars_eq, chars_eq_ignore_ascii_case, chars_of, eq_ignore_ascii_case, slice_chars,
    string_of, views_of,
};

verus! {

/// Default of `build.partialLoadThreshold`: the most paths a partial load
/// lists before it falls back to a full load.
pub const PARTIAL_LOAD_THRESHOLD: usize = 20;

/// Decision made by [`decide`].
#[derive(Debug, Clone, PartialEq, Eq)]
pub enum LoadDecision {
    /// Load only the listed files.
    Partial(Vec<String>),
    /// Load the entire source-set directory.
    Full,
}

/// Index of the last `.` of `s`, or -1.
pub open spec fn last_dot(s: Seq<char>) -> int
    decreases s.len(),
{
    if s.len() == 0 {
        -1
    } else if s.last() == '.' {
        s.len() - 1
    } else {
        last_dot(s.drop_last())
    }
}

/// A file name split into stem and extension at its last dot, as `Path`
/// does: `..`, names without a dot and names whose only dot leads have no
/// extension.
pub open spec fn split_at_dot(name: Seq<char>) -> (Seq<char>, Option<Seq<char>>) {
    let i = last_dot(name);
    if name == seq!['.', '.'] || i <= 0 {
        (name, None)
    } else {
        (name.take(i), Some(name.skip(i + 1)))
    }
}

/// `Path::file_stem`.
pub open spec fn file_stem(p: Seq<char>) -> Option<Seq<char>> {
    match file_name(p) {
        Some(n) => Some(split_at_dot(n).0),
        None => None,
    }
}

/// `Path::extension`.
pub open spec fn extension(p: Seq<char>) -> Option<Seq<char>> {
    match file_name(p) {
        Some(n) => split_at_dot(n).1,
        None => None,
    }
}

/// The path is a BSL module: its extension is `bsl` in any ASCII case.
pub open spec fn is_bsl_path(p: Seq<char>) -> bool {
    match extension(p) {
        Some(e) => eq_ignore_ascii_case(e, "bsl"@),
        None => false,
    }
}

/// The XML descriptor beside a module: same directory and stem, `.xml` extension.
pub open spec fn sibling_xml_of(p: Seq<char>) -> Option<Seq<char>> {
    match parent(p) {
        Some(d) => match file_stem(p) {
            Some(s) => Some(join_path(d, s + ".xml"@)),
            None => None,
        },
        None => None,
    }
}

/// The file name is `Module.bsl` in any ASCII case.
pub open spec fn is_nested_module(p: Seq<char>) -> bool {
    match file_name(p) {
        Some(n) => eq_ignore_ascii_case(n, "Module.bsl"@),
        None => false,
    }
}

/// The object directory that owns a module: the parent directory, or for a
/// nested `Module.bsl` (`Kind/Name/Module.bsl`) the directory two levels above.
pub open spec fn object_dir_of(p: Seq<char>) -> Option<Seq<char>> {
    match parent(p) {
        None => None,
        Some(d) => if is_nested_module(p) {
            match parent(d) {
                Some(g) => parent(g),
                None => None,
            }
        } else {
            Some(d)
        },
    }
}

/// The path, if there is one and it is among `existing`.
pub open spec fn if_existing(o: Option<Seq<char>>, existing: Seq<Seq<char>>) -> Seq<Seq<char>> {
    match o {
        Some(x) => if existing.contains(x) {
            seq![x]
        } else {
            Seq::empty()
        },
        None => Seq::empty(),
    }
}

/// The paths one changed file brings into a partial load: itself and, for a
/// module, its XML descriptor and object directory where they exist.
pub open spec fn expansion_of(path: Seq<char>, existing: Seq<Seq<char>>) -> Seq<Seq<char>> {
    seq![path] + if is_bsl_path(path) {
        if_existing(sibling_xml_of(path), existing) + if_existing(object_dir_of(path), existing)
    } else {
        Seq::empty()
    }
}

/// The paths of all changes, in change order, with repeats.
pub open spec fn expansion(changes: Seq<FileChangeView>, existing: Seq<Seq<char>>) -> Seq<
    Seq<char>,
>
    decreases changes.len(),
{
    if changes.len() == 0 {
        Seq::empty()
    } else {
        expansion(changes.drop_last(), existing) + expansion_of(changes.last().0, existing)
    }
}

/// Some change is to a file named `Configuration.xml`.
pub open spec fn touches_configuration(changes: Seq<FileChangeView>) -> bool {
    exists|i: int| 0 <= i < changes.len() && file_name((#[trigger] changes[i]).0) == Some("Configuration.xml"@)
}

/// Some change is a deletion.
pub open spec fn has_deletion(changes: Seq<FileChangeView>) -> bool {
    exists|i: int| 0 <= i < changes.len() && (#[trigger] changes[i]).1 == ChangeKind::Deleted
}

/// `r` is the load decision for `changes` when exactly the paths of
/// `existing` exist and a partial load may list at most `limit` paths: full
/// when the root descriptor changed, when a file was deleted, or when more
/// than `limit` distinct paths would be loaded; otherwise partial with those
/// paths in path order.
pub open spec fn decision_within(
    changes: Seq<FileChangeView>,
    existing: Seq<Seq<char>>,
    limit: nat,
    r: LoadDecision,
) -> bool {
    if touches_configuration(changes) || has_deletion(changes) {
        r is Full
    } else {
        match r {
            LoadDecision::Full => exists|out: Seq<Seq<char>>|
                #[trigger] sorted_distinct_paths(expansion(changes, existing), out) && out.len() > limit,
            LoadDecision::Partial(v) => sorted_distinct_paths(
                expansion(changes, existing),
                strings_view(v@),
            ) && v@.len() <= limit,
        }
    }
}

/// The load decision under the default limit, [`PARTIAL_LOAD_THRESHOLD`].
pub open spec fn decision_for(
    changes: Seq<FileChangeView>,
    existing: Seq<Seq<char>>,
    r: LoadDecision,
) -> bool {
    decision_within(changes, existing, PARTIAL_LOAD_THRESHOLD as nat, r)
}

/// Where the path of change `i` stands among the expanded paths.
proof fn lemma_expansion_index(changes: Seq<FileChangeView>, existing: Seq<Seq<char>>, i: int) -> (k: int)
    requires
        0 <= i < changes.len(),
    ensures
        0 <= k < expansion(changes, existing).len(),
        expansion(changes, existing)[k] == changes[i].0,
    decreases changes.len(),
{
    let prev = expansion(changes.drop_last(), existing);
    let tail = expansion_of(changes.last().0, existing);
    assert(expansion(changes, existing) == prev + tail);
    if i == changes.len() - 1 {
        assert(tail[0] == changes.last().0);
        prev.len() as int
    } else {
        assert(changes.drop_last()[i] == changes[i]);
        let k = lemma_expansion_index(changes.drop_last(), existing, i);
        assert((prev + tail)[k] == prev[k]);
        k
    }
}

/// Some entry of `out` is the path of change `i`.
pub open spec fn change_listed(changes: Seq<FileChangeView>, out: Seq<Seq<char>>, i: int) -> bool {
    exists|j: int| #[trigger] path_at(out, changes[i].0, j)
}

/// The path of every change has an entry in a list that covers the expansion.
proof fn lemma_change_listed(changes: Seq<FileChangeView>, existing: Seq<Seq<char>>, out: Seq<Seq<char>>, i: int)
    requires
        covers_paths(expansion(changes, existing), out),
        0 <= i < changes.len(),
    ensures
        change_listed(changes, out, i),
{
    let all = expansion(changes, existing);
    let k = lemma_expansion_index(changes, existing, i);
    reveal(covers_paths);
    assert(covered_at(all, out, k));
    let j = choose|j: int| #[trigger] path_at(out, all[k], j);
    assert(path_at(out, changes[i].0, j));
}

/// Changes that touch `Configuration.xml` or delete a file always lead to a
/// full load, whatever the threshold; a partial load lists no more paths
/// than the threshold and lists the path of every change.
pub proof fn law_partial_load_limits(
    changes: Seq<FileChangeView>,
    existing: Seq<Seq<char>>,
    limit: nat,
    r: LoadDecision,
)
    requires
        decision_within(changes, existing, limit, r),
    ensures
        touches_configuration(changes) || has_deletion(changes) ==> r is Full,
        r matches LoadDecision::Partial(v) ==> v@.len() <= limit,
        r matches LoadDecision::Partial(v) ==> forall|i: int|
            0 <= i < changes.len() ==> #[trigger] change_listed(changes, strings_view(v@), i),
{
    if let LoadDecision::Partial(v) = r {
        assert forall|i: int| 0 <= i < changes.len() implies #[trigger] change_listed(
            changes,
            strings_view(v@),
            i,
        ) by {
            lemma_change_listed(changes, existing, strings_view(v@), i);
        }
    }
}

/// Where an existing companion `x` of change `i` (its descriptor or its
/// object directory) stands among the expanded paths.
proof fn lemma_companion_index(
    changes: Seq<FileChangeView>,
    existing: Seq<Seq<char>>,
    i: int,
    x: Seq<char>,
) -> (k: int)
    requires
        0 <= i < changes.len(),
        is_bsl_path(changes[i].0),
        sibling_xml_of(changes[i].0) == Some(x) || object_dir_of(changes[i].0) == Some(x),
        existing.contains(x),
    ensures
        0 <= k < expansion(changes, existing).len(),
        expansion(changes, existing)[k] == x,
    decreases changes.len(),
{
    let prev = expansion(changes.drop_last(), existing);
    let tail = expansion_of(changes.last().0, existing);
    assert(expansion(changes, existing) == prev + tail);
    if i == changes.len() - 1 {
        let p = changes.last().0;
        let xs = if_existing(sibling_xml_of(p), existing);
        let ds = if_existing(object_dir_of(p), existing);
        assert(tail == seq![p] + (xs + ds));
        if sibling_xml_of(p) == Some(x) {
            assert(xs == seq![x]);
            assert(tail[1] == x);
            prev.len() as int + 1
        } else {
            assert(ds == seq![x]);
            assert(tail[1 + xs.len() as int] == x);
            prev.len() as int + 1 + xs.len() as int
        }
    } else {
        assert(changes.drop_last()[i] == changes[i]);
        let k = lemma_companion_index(changes.drop_last(), existing, i, x);
        assert((prev + tail)[k] == prev[k]);
        k
    }
}

/// A partial load lists, for every changed module, its XML descriptor and
/// its object directory whenever they exist, whatever the threshold.
pub proof fn law_partial_load_lists_existing_companions(
    changes: Seq<FileChangeView>,
    existing: Seq<Seq<char>>,
    limit: nat,
    r: LoadDecision,
)
    requires
        decision_within(changes, existing, limit, r),
    ensures
        r matches LoadDecision::Partial(v) ==> forall|i: int|
            #![trigger changes[i]]
            0 <= i < changes.len() && is_bsl_path(changes[i].0) ==> (object_dir_of(changes[i].0) is Some && existing.contains(object_dir_of(changes[i].0)->0)
                ==> exists|j: int| path_at(strings_view(v@), object_dir_of(changes[i].0)->0, j)),
        r matches LoadDecision::Partial(v) ==> forall|i: int|
            #![trigger changes[i]]
            0 <= i < changes.len() && is_bsl_path(changes[i].0) ==> (sibling_xml_of(changes[i].0) is Some && existing.contains(sibling_xml_of(changes[i].0)->0)
                ==> exists|j: int| path_at(strings_view(v@), sibling_xml_of(changes[i].0)->0, j)),
{
    if let LoadDecision::Partial(v) = r {
        let out = strings_view(v@);
        let all = expansion(changes, existing);
        assert forall|i: int|
            #![trigger changes[i]]
            0 <= i < changes.len() && is_bsl_path(changes[i].0) implies (object_dir_of(changes[i].0) is Some && existing.contains(object_dir_of(changes[i].0)->0)
                ==> exists|j: int| path_at(out, object_dir_of(changes[i].0)->0, j)) by {
            if let Some(d) = object_dir_of(changes[i].0) {
                if existing.contains(d) {
                    let k = lemma_companion_index(changes, existing, i, d);
                    reveal(covers_paths);
                    assert(covered_at(all, out, k));
                    let j = choose|j: int| #[trigger] path_at(out, all[k], j);
                    assert(path_at(out, d, j));
                }
            }
        }
        assert forall|i: int|
            #![trigger changes[i]]
            0 <= i < changes.len() && is_bsl_path(changes[i].0) implies (sibling_xml_of(changes[i].0) is Some && existing.contains(sibling_xml_of(changes[i].0)->0)
                ==> exists|j: int| path_at(out, sibling_xml_of(changes[i].0)->0, j)) by {
            if let Some(x) = sibling_xml_of(changes[i].0) {
                if existing.contains(x) {
                    let k = lemma_companion_index(changes, existing, i, x);
                    reveal(covers_paths);
                    assert(covered_at(all, out, k));
                    let j = choose|j: int| #[trigger] path_at(out, all[k], j);
                    assert(path_at(out, x, j));
                }
            }
        }
    }
}

/// Position of the last `.` in `s`.
fn last_dot_index(s: &[char]) -> (r: Option<usize>)
    ensures
        match r {
            Some(i) => i as int == last_dot(s@) && i < s@.len(),
            None => last_dot(s@) == -1,
        },
{
    let mut i: usize = s.len();
    assert(s@.take(s@.len() as int) =~= s@);
    while i > 0
        invariant
            i <= s@.len(),
            last_dot(s@) == last_dot(s@.take(i as int)),
        decreases i,
    {
        assert(s@.take(i as int).drop_last() =~= s@.take(i - 1));
        if s[i - 1] == '.' {
            return Some(i - 1);
        }
        i -= 1;
    }
    None
}

/// Stem and extension of a file name.
fn split_name_at_dot(name: &[char]) -> (r: (Vec<char>, Option<Vec<char>>))
    ensures
        r.0@ == split_at_dot(name@).0,
        match r.1 {
            Some(e) => split_at_dot(name@).1 == Some(e@),
            None => split_at_dot(name@).1 is None,
        },
{
    assert(name@.take(name@.len() as int) =~= name@);
    let is_dotdot = name.len() == 2 && name[0] == '.' && name[1] == '.';
    assert(is_dotdot == (name@ == seq!['.', '.'])) by {
        if is_dotdot {
            assert(name@ =~= seq!['.', '.']);
        }
    }
    let whole = slice_chars(name, 0, name.len());
    assert(name@.subrange(0, name@.len() as int) =~= name@);
    if is_dotdot {
        return (whole, None);
    }
    match last_dot_index(name) {
        None => (whole, None),
        Some(i) => {
            if i == 0 {
                (whole, None)
            } else {
                let stem = slice_chars(name, 0, i);
                let ext = slice_chars(name, i + 1, name.len());
                assert(stem@ =~= name@.take(i as int));
                assert(ext@ =~= name@.skip(i + 1));
                (stem, Some(ext))
            }
        },
    }
}

/// `Path::file_stem`.
pub fn path_file_stem(p: &str) -> (r: Option<String>)
    ensures
        match r {
            Some(s) => file_stem(p@) == Some(s@),
            None => file_stem(p@) is None,
        },
{
    match path_file_name(p) {
        None => None,
        Some(n) => {
            let cs = chars_of(n.as_str());
            let (stem, _) = split_name_at_dot(cs.as_slice());
            Some(string_of(stem.as_slice()))
        },
    }
}

/// `Path::extension`.
pub fn path_extension(p: &str) -> (r: Option<String>)
    ensures
        match r {
            Some(s) => extension(p@) == Some(s@),
            None => extension(p@) is None,
        },
{
    match path_file_name(p) {
        None => None,
        Some(n) => {
            let cs = chars_of(n.as_str());
            let (_, ext) = split_name_at_dot(cs.as_slice());
            match ext {
                Some(e) => Some(string_of(e.as_slice())),
                None => None,
            }
        },
    }
}

/// The path is a BSL module (extension `bsl`, any ASCII case).
pub fn is_bsl(path: &str) -> (b: bool)
    ensures
        b == is_bsl_path(path@),
{
    match path_extension(path) {
        Some(e) => {
            let ec = chars_of(e.as_str());
            let bsl = chars_of("bsl");
            chars_eq_ignore_ascii_case(ec.as_slice(), bsl.as_slice())
        },
        None => false,
    }
}

/// Return the XML descriptor alongside a `.bsl` file (same name, `.xml` ext).
pub fn sibling_xml(bsl: &str) -> (r: Option<String>)
    ensures
        match r {
            Some(s) => sibling_xml_of(bsl@) == Some(s@),
            None => sibling_xml_of(bsl@) is None,
        },
{
    let dir = match path_parent(bsl) {
        Some(d) => d,
        None => return None,
    };
    let stem = match path_file_stem(bsl) {
        Some(s) => s,
        None => return None,
    };
    let mut name = chars_of(stem.as_str());
    let xml = chars_of(".xml");
    append_chars(&mut name, xml.as_slice());
    let name = string_of(name.as_slice());
    Some(join(dir.as_str(), name.as_str()))
}

/// Return the object directory that owns a `.bsl` module.
///
/// Designer object layout: `ObjectType.ObjectName/Forms/FormName/Module.bsl`
/// or `ObjectType.ObjectName/ObjectModule.bsl`.
/// The "object directory" is the parent for top-level object modules, or the
/// ancestor above the nested kind/name folders for paths like `Forms/Foo/Module.bsl`.
pub fn object_dir(bsl: &str) -> (r: Option<String>)
    ensures
        match r {
            Some(s) => object_dir_of(bsl@) == Some(s@),
            None => object_dir_of(bsl@) is None,
        },
{
    let dir = match path_parent(bsl) {
        Some(d) => d,
        None => return None,
    };
    let nested = match path_file_name(bsl) {
        Some(n) => {
            let nc = chars_of(n.as_str());
            let module = chars_of("Module.bsl");
            chars_eq_ignore_ascii_case(nc.as_slice(), module.as_slice())
        },
        None => false,
    };
    if nested {
        match path_parent(dir.as_str()) {
            Some(g) => path_parent(g.as_str()),
            None => None,
        }
    } else {
        Some(dir)
    }
}

/// Whether `x` is one of `v`.
fn contains_string(v: &Vec<String>, x: &String) -> (b: bool)
    ensures
        b == strings_view(v@).contains(x@),
{
    let ghost sv = strings_view(v@);
    let mut i: usize = 0;
    while i < v.len()
        invariant
            i <= v@.len(),
            sv == strings_view(v@),
            forall|j: int| 0 <= j < i ==> sv[j] != x@,
        decreases v@.len() - i,
    {
        assert(sv[i as int] == v@[i as int]@);
        if v[i] == *x {
            return true;
        }
        i += 1;
    }
    false
}

/// Pushes `o` if it is a path among `existing`.
fn push_if_existing(out: &mut Vec<String>, o: Option<String>, existing: &Vec<String>)
    ensures
        strings_view(final(out)@) == strings_view(old(out)@) + if_existing(
            match o {
                Some(s) => Some(s@),
                None => None,
            },
            strings_view(existing@),
        ),
{
    let ghost before = strings_view(out@);
    match o {
        Some(x) => {
            if contains_string(existing, &x) {
                out.push(x);
                assert(strings_view(out@) =~= before + seq![out@.last()@]);
            } else {
                assert(strings_view(out@) =~= before + Seq::<Seq<char>>::empty());
            }
        },
        None => {
            assert(strings_view(out@) =~= before + Seq::<Seq<char>>::empty());
        },
    }
}

/// The paths of all changes with their descriptors and object directories
/// that are among `existing`, in change order, with repeats.
fn expansion_list(changes: &[FileChange], existing: &Vec<String>) -> (out: Vec<String>)
    ensures
        strings_view(out@) == expansion(change_views(changes@), strings_view(existing@)),
{
    let ghost cv = change_views(changes@);
    let ghost ev = strings_view(existing@);
    let mut out: Vec<String> = Vec::new();
    let mut i: usize = 0;
    assert(strings_view(out@) =~= Seq::<Seq<char>>::empty());
    while i < changes.len()
        invariant
            i <= changes@.len(),
            cv == change_views(changes@),
            ev == strings_view(existing@),
            strings_view(out@) == expansion(cv.take(i as int), ev),
        decreases changes@.len() - i,
    {
        let path = &changes[i].path;
        assert(cv[i as int].0 == path@);
        assert(cv.take(i + 1).drop_last() =~= cv.take(i as int));
        let ghost before = strings_view(out@);
        out.push(path.clone());
        assert(strings_view(out@) =~= before + seq![path@]);
        if is_bsl(path.as_str()) {
            let ghost mid = strings_view(out@);
            push_if_existing(&mut out, sibling_xml(path.as_str()), existing);
            let ghost mid2 = strings_view(out@);
            push_if_existing(&mut out, object_dir(path.as_str()), existing);
            assert(strings_view(out@) =~= before + expansion_of(path@, ev));
        } else {
            assert(strings_view(out@) =~= before + expansion_of(path@, ev));
        }
        i += 1;
    }
    assert(cv.take(changes@.len() as int) =~= cv);
    out
}

/// Expand the changed files into the paths that Designer needs for a partial
/// load, taking as existing exactly the paths of `existing`: every changed
/// file, and for a `.bsl` module its XML descriptor and object directory
/// where they exist; sorted in path order, each path once.
pub fn expand_files_with(changes: &[FileChange], existing: &Vec<String>) -> (out: Vec<String>)
    ensures
        sorted_distinct_paths(
            expansion(change_views(changes@), strings_view(existing@)),
            strings_view(out@),
        ),
{
    let all = expansion_list(changes, existing);
    sort_dedup_paths(&all)
}

/// `p` is the descriptor or the object directory of a changed module.
pub open spec fn is_module_companion(changes: Seq<FileChangeView>, p: Seq<char>) -> bool {
    exists|i: int|
        0 <= i < changes.len() && is_bsl_path(#[trigger] changes[i].0) && (sibling_xml_of(changes[i].0) == Some(p)
            || object_dir_of(changes[i].0) == Some(p))
}

/// The descriptors and object directories of the changed modules that exist
/// on disk now.
///
/// Which of them exist is asked of the file system, so the contract states
/// that every path returned is such a companion, not which ones are there.
fn existing_probes(changes: &[FileChange]) -> (existing: Vec<String>)
    ensures
        forall|k: int| 0 <= k < existing@.len() ==> is_module_companion(change_views(changes@), #[trigger] existing@[k]@),
{
    let ghost cv = change_views(changes@);
    let mut existing: Vec<String> = Vec::new();
    let mut i: usize = 0;
    while i < changes.len()
        invariant
            i <= changes@.len(),
            cv == change_views(changes@),
            forall|k: int| 0 <= k < existing@.len() ==> is_module_companion(cv, #[trigger] existing@[k]@),
        decreases changes@.len() - i,
    {
        assert(cv[i as int].0 == changes@[i as int].path@);
        let path = &changes[i].path;
        if is_bsl(path.as_str()) {
            if let Some(x) = sibling_xml(path.as_str()) {
                if path_exists(x.as_str()) {
                    existing.push(x);
                }
            }
            if let Some(d) = object_dir(path.as_str()) {
                if path_exists(d.as_str()) {
                    existing.push(d);
                }
            }
        }
        i += 1;
    }
    existing
}

/// Expand the raw changed-file list into the set of paths that Designer needs
/// for a partial load, looking on disk for the descriptors and object
/// directories of the changed modules.
pub fn expand_files(changes: &[FileChange], _source_root: &str) -> (out: Vec<String>)
    ensures
        exists|existing: Seq<Seq<char>>|
            #[trigger] sorted_distinct_paths(expansion(change_views(changes@), existing), strings_view(out@)),
{
    let existing = existing_probes(changes);
    expand_files_with(changes, &existing)
}

/// Whether some change is to a file named `Configuration.xml`.
fn any_configuration_xml(changes: &[FileChange]) -> (b: bool)
    ensures
        b == touches_configuration(change_views(changes@)),
{
    let ghost cv = change_views(changes@);
    let target = chars_of("Configuration.xml");
    let mut i: usize = 0;
    while i < changes.len()
        invariant
            i <= changes@.len(),
            cv == change_views(changes@),
            target@ == "Configuration.xml"@,
            forall|j: int| 0 <= j < i ==> file_name((#[trigger] cv[j]).0) != Some("Configuration.xml"@),
        decreases changes@.len() - i,
    {
        assert(cv[i as int].0 == changes@[i as int].path@);
        if let Some(n) = path_file_name(changes[i].path.as_str()) {
            let nc = chars_of(n.as_str());
            if chars_eq(nc.as_slice(), target.as_slice()) {
                assert(file_name(cv[i as int].0) == Some("Configuration.xml"@));
                return true;
            }
        }
        i += 1;
    }
    false
}

/// Whether some change is a deletion.
fn any_deletion(changes: &[FileChange]) -> (b: bool)
    ensures
        b == has_deletion(change_views(changes@)),
{
    let ghost cv = change_views(changes@);
    let mut i: usize = 0;
    while i < changes.len()
        invariant
            i <= changes@.len(),
            cv == change_views(changes@),
            forall|j: int| 0 <= j < i ==> (#[trigger] cv[j]).1 != ChangeKind::Deleted,
        decreases changes@.len() - i,
    {
        assert(cv[i as int].1 == changes@[i as int].kind);
        if changes[i].kind == ChangeKind::Deleted {
            return true;
        }
        i += 1;
    }
    false
}

/// Decide whether a partial or full load is appropriate for `changes`,
/// taking as existing exactly the paths of `existing`, with at most
/// `threshold` paths in a partial load:
/// - If `Configuration.xml` is among the changed files → Full.
/// - If any file was deleted → Full (partial load cannot safely replay removals).
/// - If the number of expanded files exceeds `threshold` → Full.
/// - Otherwise → Partial with the expanded file list.
pub fn decide_with(changes: &[FileChange], existing: &Vec<String>, threshold: usize) -> (r: LoadDecision)
    ensures
        decision_within(change_views(changes@), strings_view(existing@), threshold as nat, r),
{
    if any_configuration_xml(changes) {
        return LoadDecision::Full;
    }
    if any_deletion(changes) {
        return LoadDecision::Full;
    }
    let expanded = expand_files_with(changes, existing);
    if expanded.len() > threshold {
        assert(sorted_distinct_paths(
            expansion(change_views(changes@), strings_view(existing@)),
            strings_view(expanded@),
        ));
        LoadDecision::Full
    } else {
        LoadDecision::Partial(expanded)
    }
}

/// Decide whether a partial or full load is appropriate for `changes`, with
/// at most `threshold` paths in a partial load (the configured
/// `build.partialLoadThreshold`), looking on disk for the descriptors and
/// object directories of the changed modules (see [`decide_with`]).
pub fn decide_with_threshold(changes: &[FileChange], _source_root: &str, threshold: usize) -> (r: LoadDecision)
    ensures
        exists|existing: Seq<Seq<char>>|
            #[trigger] decision_within(change_views(changes@), existing, threshold as nat, r),
{
    let existing = existing_probes(changes);
    let r = decide_with(changes, &existing, threshold);
    assert(decision_within(change_views(changes@), strings_view(existing@), threshold as nat, r));
    r
}

/// Decide whether a partial or full load is appropriate for `changes` under
/// the default threshold, [`PARTIAL_LOAD_THRESHOLD`], looking on disk for the
/// descriptors and object directories of the changed modules.
pub fn decide(changes: &[FileChange], source_root: &str) -> (r: LoadDecision)
    ensures
        exists|existing: Seq<Seq<char>>| #[trigger] decision_for(change_views(changes@), existing, r),
{
    let r = decide_with_threshold(changes, source_root, PARTIAL_LOAD_THRESHOLD);
    let ghost existing = choose|existing: Seq<Seq<char>>|
        #[trigger] decision_within(change_views(changes@), existing, PARTIAL_LOAD_THRESHOLD as nat, r);
    assert(decision_for(change_views(changes@), existing, r));
    r
}

/// `p` without the leading components of `root`, when `root` is a prefix of
/// it as `Path::strip_prefix` compares them.
pub open spec fn strip_root(p: Seq<char>, root: Seq<char>) -> Option<Seq<char>> {
    let pc = comps_of(p);
    let rc = comps_of(root);
    if is_abs(p) == is_abs(root) && rc.len() <= pc.len() && pc.take(rc.len() as int) == rc {
        Some(render_path(false, pc.skip(rc.len() as int)))
    } else {
        None
    }
}

/// The line written for `p`: relative to `root` where it lies under it.
pub open spec fn list_line(p: Seq<char>, root: Seq<char>) -> Seq<char> {
    match strip_root(p, root) {
        Some(r) => r,
        None => p,
    }
}

/// The partial-load list: one line per path, CRLF-terminated, empty lines skipped.
pub open spec fn list_content(paths: Seq<Seq<char>>, root: Seq<char>) -> Seq<char>
    decreases paths.len(),
{
    if paths.len() == 0 {
        Seq::empty()
    } else {
        let prev = list_content(paths.drop_last(), root);
        let line = list_line(paths.last(), root);
        if line.len() == 0 {
            prev
        } else {
            prev + line + seq!['\r', '\n']
        }
    }
}

/// `path` relative to `root`, when `root` is one of its leading paths.
pub fn strip_prefix(path: &str, root: &str) -> (r: Option<String>)
    ensures
        match r {
            Some(s) => strip_root(path@, root@) == Some(s@),
            None => strip_root(path@, root@) is None,
        },
{
    let pcs = chars_of(path);
    let rcs = chars_of(root);
    let pc = components(pcs.as_slice());
    let rc = components(rcs.as_slice());
    let ghost pv = views_of(pc@);
    let ghost rv = views_of(rc@);
    if chars_is_abs(pcs.as_slice()) != chars_is_abs(rcs.as_slice()) || rc.len() > pc.len() {
        return None;
    }
    let mut i: usize = 0;
    while i < rc.len()
        invariant
            i <= rc@.len() <= pc@.len(),
            pv == views_of(pc@),
            rv == views_of(rc@),
            pv.take(i as int) == rv.take(i as int),
            pv == comps_of(path@),
            rv == comps_of(root@),
            is_abs(path@) == is_abs(root@),
        decreases rc@.len() - i,
    {
        assert(pv[i as int] == pc@[i as int]@);
        assert(rv[i as int] == rc@[i as int]@);
        if !chars_eq(pc[i].as_slice(), rc[i].as_slice()) {
            assert(pv.take(rv.len() as int)[i as int] == pv[i as int]);
            assert(pv.take(rv.len() as int) != rv);
            return None;
        }
        assert(pv.take(i + 1) =~= pv.take(i as int).push(pv[i as int]));
        assert(rv.take(i + 1) =~= rv.take(i as int).push(rv[i as int]));
        i += 1;
    }
    assert(rv.take(rv.len() as int) =~= rv);
    let mut rest: Vec<Vec<char>> = Vec::new();
    let mut k: usize = rc.len();
    while k < pc.len()
        invariant
            rc@.len() <= k <= pc@.len(),
            pv == views_of(pc@),
            views_of(rest@) == pv.subrange(rc@.len() as int, k as int),
        decreases pc@.len() - k,
    {
        let x = pc[k].clone();
        let ghost before = views_of(rest@);
        rest.push(x);
        assert(views_of(rest@) =~= before.push(pv[k as int]));
        assert(pv.subrange(rc@.len() as int, k + 1) =~= pv.subrange(rc@.len() as int, k as int).push(
            pv[k as int],
        ));
        k += 1;
    }
    assert(pv.subrange(rc@.len() as int, pc@.len() as int) =~= pv.skip(rc@.len() as int));
    let out = render(false, &rest);
    Some(string_of(out.as_slice()))
}

/// Content of a partial-load list file (one path per line, CRLF line ends,
/// no empty lines). Paths are written relative to `source_root` as required
/// by Designer's `-listFile` parameter when running in agent mode.
pub fn list_file_content(paths: &[String], source_root: &str) -> (out: String)
    ensures
        out@ == list_content(strings_view(paths@), source_root@),
{
    let ghost sv = strings_view(paths@);
    let mut content: Vec<char> = Vec::new();
    let mut i: usize = 0;
    while i < paths.len()
        invariant
            i <= paths@.len(),
            sv == strings_view(paths@),
            content@ == list_content(sv.take(i as int), source_root@),
        decreases paths@.len() - i,
    {
        let p = &paths[i];
        assert(sv[i as int] == p@);
        assert(sv.take(i + 1).drop_last() =~= sv.take(i as int));
        let line = match strip_prefix(p.as_str(), source_root) {
            Some(r) => r,
            None => p.clone(),
        };
        let lc = chars_of(line.as_str());
        if lc.len() > 0 {
            append_chars(&mut content, lc.as_slice());
            content.push('\r');
            content.push('\n');
            assert(content@ =~= list_content(sv.take(i as int), source_root@) + line@ + seq![
                '\r',
                '\n',
            ]);
        }
        i += 1;
    }
    assert(sv.take(paths@.len() as int) =~= sv);
    string_of(content.as_slice())
}

} // verus!
