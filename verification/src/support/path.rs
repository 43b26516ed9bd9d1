//! A lexical model of `/`-separated paths.
//!
//! A path is read as `std::path::Path` reads it: an optional root `/`, then
//! its components, where empty pieces and `.` pieces are skipped except a
//! leading `.` (the current directory), which is kept. Paths built here
//! (joins, parents) are written from those components with single `/`
//! separators, so `./work` joined with `x` is `./work/x`, and two paths are
//! equal exactly when their roots and components agree, as `Path` compares
//! them. Text with repeated separators or inner `.` pieces is not kept
//! letter for letter: `a//b` joined with `c` is written `a/b/c`.

use vstd::prelude::*;

use crate::support::text::{
    append_chars, chars_of, join_with, lemma_split_on_nonempty, split_chars, split_on, string_of, views_of,
};

verus! {

/// The path is absolute (starts at the root).
pub open spec fn is_abs(p: Seq<char>) -> bool {
    p.len() > 0 && p[0] == '/'
}

/// Drops empty and `.` pieces, keeping the order of the rest.
pub open spec fn keep_normal(parts: Seq<Seq<char>>) -> Seq<Seq<char>>
    decreases parts.len(),
{
    if parts.len() == 0 {
        Seq::<Seq<char>>::empty()
    } else {
        let r = keep_normal(parts.drop_last());
        let x = parts.last();
        if x.len() == 0 || x == seq!['.'] {
            r
        } else {
            r.push(x)
        }
    }
}

/// The path's first piece is `.`: it starts with the current directory.
pub open spec fn leads_with_cur_dir(p: Seq<char>) -> bool {
    split_on(p, '/')[0] == seq!['.']
}

/// The components of a path, root excluded: a leading `.` is kept, other
/// empty and `.` pieces are dropped.
pub open spec fn comps_of(p: Seq<char>) -> Seq<Seq<char>> {
    if leads_with_cur_dir(p) {
        seq![seq!['.']] + keep_normal(split_on(p, '/'))
    } else {
        keep_normal(split_on(p, '/'))
    }
}

/// The normal-form text of a path with the given root flag and components.
pub open spec fn render_path(abs: bool, comps: Seq<Seq<char>>) -> Seq<char> {
    if abs {
        seq!['/'] + join_with(comps, seq!['/'])
    } else {
        join_with(comps, seq!['/'])
    }
}

/// Normal form of a path.
pub open spec fn normalize(p: Seq<char>) -> Seq<char> {
    render_path(is_abs(p), comps_of(p))
}

/// `Path::join`: an absolute `b` replaces `a`, as does any `b` when `a` is
/// empty; otherwise `b`'s components follow `a`'s, where a leading `.` of
/// `b` no longer leads and is dropped.
pub open spec fn join_path(a: Seq<char>, b: Seq<char>) -> Seq<char> {
    if is_abs(b) || (!is_abs(a) && comps_of(a).len() == 0) {
        normalize(b)
    } else {
        render_path(is_abs(a), comps_of(a) + keep_normal(split_on(b, '/')))
    }
}

/// `Path::file_name`: the last component, unless there is none or it is
/// `..` or the current directory `.`.
pub open spec fn file_name(p: Seq<char>) -> Option<Seq<char>> {
    let c = comps_of(p);
    if c.len() == 0 || c.last() == seq!['.', '.'] || c.last() == seq!['.'] {
        None
    } else {
        Some(c.last())
    }
}

/// `Path::parent`: the path without its last component, if it has one.
pub open spec fn parent(p: Seq<char>) -> Option<Seq<char>> {
    let c = comps_of(p);
    if c.len() == 0 {
        None
    } else {
        Some(render_path(is_abs(p), c.drop_last()))
    }
}

/// Every character except the separators and reserved punctuation may
/// appear in a single path segment.
pub open spec fn is_reserved_segment_char(c: char) -> bool {
    c == '<' || c == '>' || c == ':' || c == '"' || c == '/' || c == '\\' || c == '|' || c == '?'
        || c == '*' || c == '\0'
}

/// A value that names exactly one ordinary file or directory inside its
/// parent: non-empty, neither `.` nor `..`, and free of reserved characters.
pub open spec fn is_safe_segment(v: Seq<char>) -> bool {
    &&& v.len() > 0
    &&& v != seq!['.']
    &&& v != seq!['.', '.']
    &&& forall|i: int| 0 <= i < v.len() ==> !is_reserved_segment_char(#[trigger] v[i])
}

/// Returns true when `value` can be safely used as a single file/path segment.
pub fn is_safe_path_segment(value: &str) -> (ok: bool)
    ensures
        ok == is_safe_segment(value@),
{
    let v = chars_of(value);
    if v.len() == 0 {
        return false;
    }
    if v.len() == 1 && v[0] == '.' {
        assert(v@ =~= seq!['.']);
        return false;
    }
    if v.len() == 2 && v[0] == '.' && v[1] == '.' {
        assert(v@ =~= seq!['.', '.']);
        return false;
    }
    assert(v@ != seq!['.']) by {
        if v@ == seq!['.'] {
            assert(v@.len() == 1);
        }
    }
    assert(v@ != seq!['.', '.']) by {
        if v@ == seq!['.', '.'] {
            assert(v@[0] == '.' && v@[1] == '.');
        }
    }
    let mut i: usize = 0;
    while i < v.len()
        invariant
            i <= v@.len(),
            v@ == value@,
            forall|j: int| 0 <= j < i ==> !is_reserved_segment_char(#[trigger] v@[j]),
        decreases v@.len() - i,
    {
        let c = v[i];
        if c == '<' || c == '>' || c == ':' || c == '"' || c == '/' || c == '\\' || c == '|' || c
            == '?' || c == '*' || c == '\0' {
            assert(is_reserved_segment_char(v@[i as int]));
            return false;
        }
        i += 1;
    }
    true
}

/// The pieces that are neither empty nor `.`.
pub fn keep_normal_parts(parts: Vec<Vec<char>>) -> (out: Vec<Vec<char>>)
    ensures
        views_of(out@) == keep_normal(views_of(parts@)),
{
    let mut out: Vec<Vec<char>> = Vec::new();
    let mut i: usize = 0;
    let ghost all = views_of(parts@);
    assert(all.take(0) =~= Seq::<Seq<char>>::empty());
    while i < parts.len()
        invariant
            i <= parts@.len(),
            all == views_of(parts@),
            views_of(out@) == keep_normal(all.take(i as int)),
        decreases parts@.len() - i,
    {
        let x = parts[i].clone();
        assert(x@ == all[i as int]);
        assert(all.take(i + 1).drop_last() =~= all.take(i as int));
        assert(all.take(i + 1).last() == all[i as int]);
        let is_dot = x.len() == 1 && x[0] == '.';
        assert(is_dot == (x@ == seq!['.'])) by {
            if x@ == seq!['.'] {
                assert(x@.len() == 1 && x@[0] == '.');
            }
            if is_dot {
                assert(x@ =~= seq!['.']);
            }
        }
        if !(x.len() == 0 || is_dot) {
            let ghost before = views_of(out@);
            out.push(x);
            assert(views_of(out@) =~= before.push(all[i as int]));
        }
        i += 1;
    }
    assert(all.take(parts@.len() as int) =~= all);
    out
}

/// The components of `p`.
pub fn components(p: &[char]) -> (out: Vec<Vec<char>>)
    ensures
        views_of(out@) == comps_of(p@),
{
    let parts = split_chars(p, '/');
    proof {
        lemma_split_on_nonempty(p@, '/');
    }
    assert(parts@[0]@ == split_on(p@, '/')[0]);
    let lead_dot = parts[0].len() == 1 && parts[0][0] == '.';
    assert(lead_dot == leads_with_cur_dir(p@)) by {
        if lead_dot {
            assert(parts@[0]@ =~= seq!['.']);
        }
    }
    let kept = keep_normal_parts(parts);
    if lead_dot {
        let mut dot: Vec<char> = Vec::new();
        dot.push('.');
        assert(dot@ =~= seq!['.']);
        let mut out: Vec<Vec<char>> = Vec::new();
        out.push(dot);
        let ghost k = views_of(kept@);
        let mut rest = kept;
        out.append(&mut rest);
        assert(views_of(out@) =~= seq![seq!['.']] + k);
        out
    } else {
        kept
    }
}

/// Joins character vectors with a separator.
pub fn join_parts(parts: &Vec<Vec<char>>, sep: &[char]) -> (out: Vec<char>)
    ensures
        out@ == join_with(views_of(parts@), sep@),
{
    let mut out: Vec<char> = Vec::new();
    let mut i: usize = 0;
    let ghost all = views_of(parts@);
    while i < parts.len()
        invariant
            i <= parts@.len(),
            all == views_of(parts@),
            out@ == join_with(all.take(i as int), sep@),
        decreases parts@.len() - i,
    {
        let ghost before = all.take(i as int);
        if i > 0 {
            append_chars(&mut out, sep);
        }
        append_chars(&mut out, parts[i].as_slice());
        assert(all.take(i + 1).drop_last() =~= before);
        assert(all[i as int] == parts@[i as int]@);
        i += 1;
    }
    assert(all.take(parts@.len() as int) =~= all);
    out
}

/// Text of a path from its root flag and components.
pub fn render(abs: bool, comps: &Vec<Vec<char>>) -> (out: Vec<char>)
    ensures
        out@ == render_path(abs, views_of(comps@)),
{
    let body = join_parts(comps, &['/']);
    assert(seq!['/'] =~= (['/'])@) by {
        let a = ['/'];
        assert(a@.len() == 1);
    }
    if abs {
        let mut out: Vec<char> = Vec::new();
        out.push('/');
        append_chars(&mut out, body.as_slice());
        out
    } else {
        body
    }
}

/// Whether the text starts at the root.
pub fn chars_is_abs(p: &[char]) -> (b: bool)
    ensures
        b == is_abs(p@),
{
    p.len() > 0 && p[0] == '/'
}

/// Normal form of `p`.
pub fn normalize_path(p: &str) -> (out: String)
    ensures
        out@ == normalize(p@),
{
    let cs = chars_of(p);
    let comps = components(cs.as_slice());
    let r = render(chars_is_abs(cs.as_slice()), &comps);
    string_of(r.as_slice())
}

/// `Path::join` in normal form.
pub fn join(a: &str, b: &str) -> (out: String)
    ensures
        out@ == join_path(a@, b@),
{
    let bs = chars_of(b);
    let as_ = chars_of(a);
    let mut comps = components(as_.as_slice());
    if chars_is_abs(bs.as_slice()) || (!chars_is_abs(as_.as_slice()) && comps.len() == 0) {
        return normalize_path(b);
    }
    let mut more = keep_normal_parts(split_chars(bs.as_slice(), '/'));
    let ghost ca = views_of(comps@);
    let ghost cb = views_of(more@);
    comps.append(&mut more);
    assert(views_of(comps@) =~= ca + cb);
    let r = render(chars_is_abs(as_.as_slice()), &comps);
    string_of(r.as_slice())
}

/// `Path::is_absolute`.
pub fn is_absolute(p: &str) -> (b: bool)
    ensures
        b == is_abs(p@),
{
    let cs = chars_of(p);
    chars_is_abs(cs.as_slice())
}

/// `Path::file_name`.
pub fn path_file_name(p: &str) -> (out: Option<String>)
    ensures
        match out {
            Some(s) => file_name(p@) == Some(s@),
            None => file_name(p@) is None,
        },
{
    let cs = chars_of(p);
    let comps = components(cs.as_slice());
    if comps.len() == 0 {
        return None;
    }
    let last = &comps[comps.len() - 1];
    assert(last@ == comps_of(p@).last());
    let is_dotdot = last.len() == 2 && last[0] == '.' && last[1] == '.';
    assert(is_dotdot == (last@ == seq!['.', '.'])) by {
        if is_dotdot {
            assert(last@ =~= seq!['.', '.']);
        }
    }
    let is_dot = last.len() == 1 && last[0] == '.';
    assert(is_dot == (last@ == seq!['.'])) by {
        if is_dot {
            assert(last@ =~= seq!['.']);
        }
    }
    if is_dotdot || is_dot {
        None
    } else {
        Some(string_of(last.as_slice()))
    }
}

/// `Path::parent`.
pub fn path_parent(p: &str) -> (out: Option<String>)
    ensures
        match out {
            Some(s) => parent(p@) == Some(s@),
            None => parent(p@) is None,
        },
{
    let cs = chars_of(p);
    let mut comps = components(cs.as_slice());
    if comps.len() == 0 {
        return None;
    }
    let ghost c = views_of(comps@);
    let _ = comps.pop();
    assert(views_of(comps@) =~= c.drop_last());
    let r = render(chars_is_abs(cs.as_slice()), &comps);
    Some(string_of(r.as_slice()))
}

/// `Path::starts_with`: `base` has the same root and its components lead `p`'s.
pub open spec fn path_starts_with(p: Seq<char>, base: Seq<char>) -> bool {
    let pc = comps_of(p);
    let bc = comps_of(base);
    is_abs(p) == is_abs(base) && bc.len() <= pc.len() && pc.take(bc.len() as int) == bc
}

/// Two paths are equal as `Path` compares them: same root, same components.
pub open spec fn path_eq(a: Seq<char>, b: Seq<char>) -> bool {
    is_abs(a) == is_abs(b) && comps_of(a) == comps_of(b)
}

/// The leading `n` components of two component lists agree.
fn comps_prefix_equal(a: &Vec<Vec<char>>, b: &Vec<Vec<char>>, n: usize) -> (r: bool)
    requires
        n <= a@.len(),
        n <= b@.len(),
    ensures
        r == (views_of(a@).take(n as int) == views_of(b@).take(n as int)),
{
    let ghost av = views_of(a@);
    let ghost bv = views_of(b@);
    let mut i: usize = 0;
    while i < n
        invariant
            n <= a@.len(),
            n <= b@.len(),
            i <= n,
            av == views_of(a@),
            bv == views_of(b@),
            av.take(i as int) == bv.take(i as int),
        decreases n - i,
    {
        assert(av[i as int] == a@[i as int]@);
        assert(bv[i as int] == b@[i as int]@);
        let ai = &a[i];
        let bi = &b[i];
        let mut same = ai.len() == bi.len();
        if same {
            let mut k: usize = 0;
            while k < ai.len()
                invariant
                    ai@.len() == bi@.len(),
                    k <= ai@.len(),
                    same == (forall|m: int| 0 <= m < k ==> ai@[m] == bi@[m]),
                decreases ai@.len() - k,
            {
                if ai[k] != bi[k] {
                    same = false;
                }
                k += 1;
            }
            if same {
                assert(ai@ =~= bi@);
            }
        }
        if !same {
            assert(av.take(n as int)[i as int] == av[i as int]);
            assert(bv.take(n as int)[i as int] == bv[i as int]);
            assert(av[i as int] != bv[i as int]) by {
                if ai@.len() == bi@.len() {
                    let m = choose|m: int| 0 <= m < ai@.len() && ai@[m] != bi@[m];
                }
            }
            return false;
        }
        assert(av.take(i + 1) =~= av.take(i as int).push(av[i as int]));
        assert(bv.take(i + 1) =~= bv.take(i as int).push(bv[i as int]));
        i += 1;
    }
    true
}

/// `Path::starts_with`.
pub fn starts_with_path(p: &str, base: &str) -> (b: bool)
    ensures
        b == path_starts_with(p@, base@),
{
    let pcs = chars_of(p);
    let bcs = chars_of(base);
    let pc = components(pcs.as_slice());
    let bc = components(bcs.as_slice());
    if chars_is_abs(pcs.as_slice()) != chars_is_abs(bcs.as_slice()) || bc.len() > pc.len() {
        return false;
    }
    let r = comps_prefix_equal(&pc, &bc, bc.len());
    assert(views_of(bc@).take(bc@.len() as int) =~= views_of(bc@));
    r
}

/// `Path` equality.
pub fn paths_equal(a: &str, b: &str) -> (r: bool)
    ensures
        r == path_eq(a@, b@),
{
    let acs = chars_of(a);
    let bcs = chars_of(b);
    let ac = components(acs.as_slice());
    let bc = components(bcs.as_slice());
    assert(views_of(ac@).len() == ac@.len());
    assert(views_of(bc@).len() == bc@.len());
    if chars_is_abs(acs.as_slice()) != chars_is_abs(bcs.as_slice()) || ac.len() != bc.len() {
        return false;
    }
    let r = comps_prefix_equal(&ac, &bc, ac.len());
    assert(views_of(ac@).take(ac@.len() as int) =~= views_of(ac@));
    assert(views_of(bc@).take(bc@.len() as int) =~= views_of(bc@));
    r
}

/// Whether a file or directory exists at `path`.
///
/// Calls `std::path::Path::exists`. The answer depends on the file system at
/// the moment of the call, so nothing is stated of it.
#[verifier::external_body]
pub(crate) fn path_exists(path: &str) -> bool {
    std::path::Path::new(path).exists()
}

} // verus!
