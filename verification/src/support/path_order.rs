//! The order in which `std::path::Path` sorts paths, over the lexical path model.
//!
//! Paths compare component by component: the root first, then `..`, then
//! ordinary names, which compare by their characters (the order of their
//! UTF-8 bytes). Two paths are equal when their components are.

use vstd::prelude::*;

use crate::platform::process::strings_view;
use crate::support::path::{comps_of, components, is_abs, chars_is_abs};
use crate::support::text::{chars_of, views_of};

verus! {

/// Lexicographic order on sequences of code units; a proper prefix comes first.
pub open spec fn units_lt(a: Seq<u32>, b: Seq<u32>) -> bool
    decreases a.len(),
{
    if a.len() == 0 {
        b.len() > 0
    } else if b.len() == 0 {
        false
    } else if a[0] != b[0] {
        a[0] < b[0]
    } else {
        units_lt(a.drop_first(), b.drop_first())
    }
}

/// Lexicographic order on sequences of component keys.
pub open spec fn keys_lt(a: Seq<Seq<u32>>, b: Seq<Seq<u32>>) -> bool
    decreases a.len(),
{
    if a.len() == 0 {
        b.len() > 0
    } else if b.len() == 0 {
        false
    } else if a[0] != b[0] {
        units_lt(a[0], b[0])
    } else {
        keys_lt(a.drop_first(), b.drop_first())
    }
}

/// The code units of a character sequence.
pub open spec fn units_of(c: Seq<char>) -> Seq<u32> {
    c.map_values(|ch: char| ch as u32)
}

/// Sort key of one component: `..` before every name, names by their characters.
pub open spec fn comp_key(c: Seq<char>) -> Seq<u32> {
    if c == seq!['.', '.'] {
        seq![1u32]
    } else {
        seq![2u32] + units_of(c)
    }
}

/// Sort key of a path: the root, if any, then its components.
#[verifier::opaque]
pub open spec fn path_key(p: Seq<char>) -> Seq<Seq<u32>> {
    let root: Seq<Seq<u32>> = if is_abs(p) {
        seq![seq![0u32]]
    } else {
        Seq::empty()
    };
    root + comps_of(p).map_values(|c: Seq<char>| comp_key(c))
}

/// `a` sorts before `b` as paths.
pub open spec fn path_lt(a: Seq<char>, b: Seq<char>) -> bool {
    keys_lt(path_key(a), path_key(b))
}

/// `a` and `b` are the same path.
pub open spec fn same_path(a: Seq<char>, b: Seq<char>) -> bool {
    path_key(a) == path_key(b)
}

pub proof fn lemma_units_lt_irreflexive(a: Seq<u32>)
    ensures
        !units_lt(a, a),
    decreases a.len(),
{
    if a.len() > 0 {
        lemma_units_lt_irreflexive(a.drop_first());
    }
}

pub proof fn lemma_units_lt_transitive(a: Seq<u32>, b: Seq<u32>, c: Seq<u32>)
    requires
        units_lt(a, b),
        units_lt(b, c),
    ensures
        units_lt(a, c),
    decreases a.len(),
{
    if a.len() > 0 && b.len() > 0 && c.len() > 0 && a[0] == b[0] && b[0] == c[0] {
        lemma_units_lt_transitive(a.drop_first(), b.drop_first(), c.drop_first());
    }
}

pub proof fn lemma_units_lt_total(a: Seq<u32>, b: Seq<u32>)
    requires
        a != b,
    ensures
        units_lt(a, b) || units_lt(b, a),
    decreases a.len(),
{
    if a.len() == 0 {
        if b.len() == 0 {
            assert(a =~= b);
        }
    } else if b.len() > 0 && a[0] == b[0] {
        if a.drop_first() == b.drop_first() {
            assert(a =~= seq![a[0]] + a.drop_first());
            assert(b =~= seq![b[0]] + b.drop_first());
        }
        lemma_units_lt_total(a.drop_first(), b.drop_first());
    }
}

pub proof fn lemma_keys_lt_irreflexive(a: Seq<Seq<u32>>)
    ensures
        !keys_lt(a, a),
    decreases a.len(),
{
    if a.len() > 0 {
        lemma_keys_lt_irreflexive(a.drop_first());
    }
}

pub proof fn lemma_keys_lt_transitive(a: Seq<Seq<u32>>, b: Seq<Seq<u32>>, c: Seq<Seq<u32>>)
    requires
        keys_lt(a, b),
        keys_lt(b, c),
    ensures
        keys_lt(a, c),
    decreases a.len(),
{
    if a.len() > 0 && b.len() > 0 && c.len() > 0 {
        if a[0] == b[0] && b[0] == c[0] {
            lemma_keys_lt_transitive(a.drop_first(), b.drop_first(), c.drop_first());
        } else if a[0] != b[0] && b[0] != c[0] {
            lemma_units_lt_transitive(a[0], b[0], c[0]);
            if a[0] == c[0] {
                lemma_units_lt_irreflexive(a[0]);
            }
        }
    }
}

pub proof fn lemma_keys_lt_total(a: Seq<Seq<u32>>, b: Seq<Seq<u32>>)
    requires
        a != b,
    ensures
        keys_lt(a, b) || keys_lt(b, a),
    decreases a.len(),
{
    if a.len() == 0 {
        if b.len() == 0 {
            assert(a =~= b);
        }
    } else if b.len() > 0 {
        if a[0] == b[0] {
            if a.drop_first() == b.drop_first() {
                assert(a =~= seq![a[0]] + a.drop_first());
                assert(b =~= seq![b[0]] + b.drop_first());
            }
            lemma_keys_lt_total(a.drop_first(), b.drop_first());
        } else {
            lemma_units_lt_total(a[0], b[0]);
        }
    }
}

/// Three-way comparison of code-unit sequences: -1, 0 or 1.
pub(crate) fn units_order(a: &Vec<u32>, b: &Vec<u32>) -> (r: i8)
    ensures
        (r == -1) == units_lt(a@, b@),
        (r == 0) == (a@ == b@),
        (r == 1) == units_lt(b@, a@),
        r == -1 || r == 0 || r == 1,
{
    let mut i: usize = 0;
    assert(a@.skip(0) =~= a@);
    assert(b@.skip(0) =~= b@);
    while i < a.len() && i < b.len()
        invariant
            i <= a@.len(),
            i <= b@.len(),
            a@.take(i as int) == b@.take(i as int),
            units_lt(a@, b@) == units_lt(a@.skip(i as int), b@.skip(i as int)),
            units_lt(b@, a@) == units_lt(b@.skip(i as int), a@.skip(i as int)),
        decreases a@.len() - i,
    {
        if a[i] != b[i] {
            proof {
                lemma_units_lt_irreflexive(a@);
                assert(a@[i as int] != b@[i as int]);
                assert(a@ != b@);
            }
            if a[i] < b[i] {
                return -1;
            } else {
                return 1;
            }
        }
        assert(a@.skip(i as int).drop_first() =~= a@.skip(i + 1));
        assert(b@.skip(i as int).drop_first() =~= b@.skip(i + 1));
        assert(a@.take(i + 1) =~= a@.take(i as int).push(a@[i as int]));
        assert(b@.take(i + 1) =~= b@.take(i as int).push(b@[i as int]));
        i += 1;
    }
    proof {
        lemma_units_lt_irreflexive(a@);
        if i == a@.len() {
            assert(a@.take(i as int) =~= a@);
        }
        if i == b@.len() {
            assert(b@.take(i as int) =~= b@);
        }
    }
    if a.len() == b.len() {
        assert(a@ =~= b@);
        0
    } else if a.len() < b.len() {
        assert(a@ != b@);
        -1
    } else {
        assert(a@ != b@);
        1
    }
}

/// The plain values of component keys.
pub open spec fn keys_view(k: Seq<Vec<u32>>) -> Seq<Seq<u32>> {
    k.map_values(|v: Vec<u32>| v@)
}

/// Three-way comparison of path keys: -1, 0 or 1.
pub(crate) fn keys_order(a: &Vec<Vec<u32>>, b: &Vec<Vec<u32>>) -> (r: i8)
    ensures
        (r == -1) == keys_lt(keys_view(a@), keys_view(b@)),
        (r == 0) == (keys_view(a@) == keys_view(b@)),
        (r == 1) == keys_lt(keys_view(b@), keys_view(a@)),
        r == -1 || r == 0 || r == 1,
{
    let ghost av = keys_view(a@);
    let ghost bv = keys_view(b@);
    let mut i: usize = 0;
    assert(av.skip(0) =~= av);
    assert(bv.skip(0) =~= bv);
    while i < a.len() && i < b.len()
        invariant
            av == keys_view(a@),
            bv == keys_view(b@),
            i <= a@.len(),
            i <= b@.len(),
            av.take(i as int) == bv.take(i as int),
            keys_lt(av, bv) == keys_lt(av.skip(i as int), bv.skip(i as int)),
            keys_lt(bv, av) == keys_lt(bv.skip(i as int), av.skip(i as int)),
        decreases a@.len() - i,
    {
        let o = units_order(&a[i], &b[i]);
        assert(av[i as int] == a@[i as int]@);
        assert(bv[i as int] == b@[i as int]@);
        if o != 0 {
            proof {
                lemma_keys_lt_irreflexive(av);
                assert(av[i as int] != bv[i as int]);
                assert(av != bv);
            }
            return o;
        }
        assert(av.skip(i as int).drop_first() =~= av.skip(i + 1));
        assert(bv.skip(i as int).drop_first() =~= bv.skip(i + 1));
        assert(av.take(i + 1) =~= av.take(i as int).push(av[i as int]));
        assert(bv.take(i + 1) =~= bv.take(i as int).push(bv[i as int]));
        i += 1;
    }
    proof {
        lemma_keys_lt_irreflexive(av);
        if i == a@.len() {
            assert(av.take(i as int) =~= av);
        }
        if i == b@.len() {
            assert(bv.take(i as int) =~= bv);
        }
    }
    if a.len() == b.len() {
        assert(av =~= bv);
        0
    } else if a.len() < b.len() {
        assert(av.len() != bv.len());
        -1
    } else {
        assert(av.len() != bv.len());
        1
    }
}

/// Code units of a character vector.
fn units_of_chars(c: &Vec<char>) -> (out: Vec<u32>)
    ensures
        out@ == units_of(c@),
{
    let mut out: Vec<u32> = Vec::new();
    let mut i: usize = 0;
    while i < c.len()
        invariant
            i <= c@.len(),
            out@ == units_of(c@.take(i as int)),
        decreases c@.len() - i,
    {
        let ch = c[i];
        out.push(ch as u32);
        assert(units_of(c@.take(i + 1)) =~= units_of(c@.take(i as int)).push(ch as u32));
        i += 1;
    }
    assert(c@.take(c@.len() as int) =~= c@);
    out
}

/// Sort key of a path.
pub fn path_key_of(p: &str) -> (k: Vec<Vec<u32>>)
    ensures
        keys_view(k@) == path_key(p@),
{
    reveal(path_key);
    let cs = chars_of(p);
    let comps = components(cs.as_slice());
    let ghost cv = views_of(comps@);
    let mut k: Vec<Vec<u32>> = Vec::new();
    let ghost root: Seq<Seq<u32>> = if is_abs(p@) {
        seq![seq![0u32]]
    } else {
        Seq::empty()
    };
    if chars_is_abs(cs.as_slice()) {
        let mut r: Vec<u32> = Vec::new();
        r.push(0u32);
        k.push(r);
    }
    assert(keys_view(k@) =~= root);
    let mut i: usize = 0;
    while i < comps.len()
        invariant
            i <= comps@.len(),
            cv == views_of(comps@),
            cv == comps_of(p@),
            keys_view(k@) == root + cv.take(i as int).map_values(|c: Seq<char>| comp_key(c)),
        decreases comps@.len() - i,
    {
        let c = &comps[i];
        assert(c@ == cv[i as int]);
        let ghost before = k@;
        let is_parent = c.len() == 2 && c[0] == '.' && c[1] == '.';
        assert(is_parent == (c@ == seq!['.', '.'])) by {
            if is_parent {
                assert(c@ =~= seq!['.', '.']);
            }
        }
        let mut u: Vec<u32> = Vec::new();
        if is_parent {
            u.push(1u32);
        } else {
            u.push(2u32);
            let mut rest = units_of_chars(c);
            u.append(&mut rest);
        }
        assert(u@ =~= comp_key(c@));
        k.push(u);
        assert(keys_view(k@) =~= keys_view(before).push(comp_key(cv[i as int])));
        assert(cv.take(i + 1).map_values(|c: Seq<char>| comp_key(c)) =~= cv.take(
            i as int,
        ).map_values(|c: Seq<char>| comp_key(c)).push(comp_key(cv[i as int])));
        i += 1;
    }
    assert(cv.take(comps@.len() as int) =~= cv);
    k
}

/// Index `k` holds the first path of `v` that is the same path as `v[k]`.
#[verifier::opaque]
pub open spec fn first_of_its_path(v: Seq<Seq<char>>, k: int) -> bool {
    forall|j: int| 0 <= j < k ==> !same_path(#[trigger] v[j], v[k])
}

/// Strictly increasing in path order.
#[verifier::opaque]
pub open spec fn sorted_paths(v: Seq<Seq<char>>) -> bool {
    forall|i: int, j: int| 0 <= i < j < v.len() ==> path_lt(#[trigger] v[i], #[trigger] v[j])
}

/// `paths[k]` is `p`, and no earlier entry is the same path.
pub open spec fn is_first_index(paths: Seq<Seq<char>>, p: Seq<char>, k: int) -> bool {
    0 <= k < paths.len() && paths[k] == p && first_of_its_path(paths, k)
}

/// `out[i]` is the same path as `p`.
pub open spec fn path_at(out: Seq<Seq<char>>, p: Seq<char>, i: int) -> bool {
    0 <= i < out.len() && same_path(out[i], p)
}

/// `out[i]` occurs in `paths`, first at some index.
pub open spec fn drawn_at(paths: Seq<Seq<char>>, out: Seq<Seq<char>>, i: int) -> bool {
    exists|k: int| #[trigger] is_first_index(paths, out[i], k)
}

/// The path of `paths[k]` occurs in `out`.
pub open spec fn covered_at(paths: Seq<Seq<char>>, out: Seq<Seq<char>>, k: int) -> bool {
    exists|i: int| #[trigger] path_at(out, paths[k], i)
}

/// Each entry of `out` is a path of `paths` at the first index with that path.
#[verifier::opaque]
pub open spec fn drawn_from_firsts(paths: Seq<Seq<char>>, out: Seq<Seq<char>>) -> bool {
    forall|i: int| 0 <= i < out.len() ==> #[trigger] drawn_at(paths, out, i)
}

/// Every path of `paths` occurs in `out`.
#[verifier::opaque]
pub open spec fn covers_paths(paths: Seq<Seq<char>>, out: Seq<Seq<char>>) -> bool {
    forall|k: int| 0 <= k < paths.len() ==> #[trigger] covered_at(paths, out, k)
}

/// `out` lists the distinct paths of `paths` in path order, each as it first
/// occurs in `paths`.
pub open spec fn sorted_distinct_paths(paths: Seq<Seq<char>>, out: Seq<Seq<char>>) -> bool {
    &&& sorted_paths(out)
    &&& drawn_from_firsts(paths, out)
    &&& covers_paths(paths, out)
}

proof fn lemma_insert_sorted(v: Seq<Seq<char>>, j: int, p: Seq<char>)
    requires
        sorted_paths(v),
        0 <= j <= v.len(),
        forall|i: int| 0 <= i < j ==> path_lt(#[trigger] v[i], p),
        j < v.len() ==> path_lt(p, v[j]),
    ensures
        sorted_paths(v.insert(j, p)),
{
    reveal(sorted_paths);
    let w = v.insert(j, p);
    assert forall|a: int, b: int| 0 <= a < b < w.len() implies path_lt(#[trigger] w[a], #[trigger] w[b]) by {
        if a < j && b < j {
            assert(w[a] == v[a]);
            assert(w[b] == v[b]);
        } else if a < j && b == j {
        } else if a < j && b > j {
            assert(w[b] == v[b - 1]);
            assert(path_lt(v[a], v[b - 1]));
        } else if a == j {
            assert(w[b] == v[b - 1]);
            if b - 1 > j {
                assert(path_lt(v[j], v[b - 1]));
                lemma_keys_lt_transitive(path_key(p), path_key(v[j]), path_key(v[b - 1]));
            }
        } else {
            assert(w[a] == v[a - 1]);
            assert(w[b] == v[b - 1]);
            assert(path_lt(v[a - 1], v[b - 1]));
        }
    }
}

/// A path sorting strictly between the neighbours at `j` of a sorted list is none of its paths.
proof fn lemma_absent_between(v: Seq<Seq<char>>, j: int, p: Seq<char>, i: int)
    requires
        sorted_paths(v),
        0 <= j <= v.len(),
        forall|x: int| 0 <= x < j ==> path_lt(#[trigger] v[x], p),
        j < v.len() ==> path_lt(p, v[j]),
        0 <= i < v.len(),
    ensures
        !same_path(v[i], p),
{
    reveal(sorted_paths);
    lemma_keys_lt_irreflexive(path_key(p));
    if i > j {
        assert(path_lt(v[j], v[i]));
        lemma_keys_lt_transitive(path_key(p), path_key(v[j]), path_key(v[i]));
    }
}

/// Being first of its path survives extending the sequence.
proof fn lemma_first_extend(t: Seq<Seq<char>>, t1: Seq<Seq<char>>, m: int)
    requires
        0 <= m < t.len() <= t1.len(),
        t1.take(t.len() as int) == t,
        first_of_its_path(t, m),
    ensures
        first_of_its_path(t1, m),
{
    reveal(first_of_its_path);
    assert forall|x: int| 0 <= x < m implies !same_path(#[trigger] t1[x], t1[m]) by {
        assert(t1[x] == t1.take(t.len() as int)[x]);
        assert(t1[m] == t1.take(t.len() as int)[m]);
    }
}

proof fn lemma_drawn_extend(t: Seq<Seq<char>>, t1: Seq<Seq<char>>, ov: Seq<Seq<char>>)
    requires
        t.len() <= t1.len(),
        t1.take(t.len() as int) == t,
        drawn_from_firsts(t, ov),
    ensures
        drawn_from_firsts(t1, ov),
{
    reveal(drawn_from_firsts);
    assert forall|i: int| 0 <= i < ov.len() implies #[trigger] drawn_at(t1, ov, i) by {
        assert(drawn_at(t, ov, i));
        let m = choose|m: int| #[trigger] is_first_index(t, ov[i], m);
        assert(t1[m] == t1.take(t.len() as int)[m]);
        lemma_first_extend(t, t1, m);
        assert(is_first_index(t1, ov[i], m));
    }
}

proof fn lemma_covers_extend(t: Seq<Seq<char>>, t1: Seq<Seq<char>>, ov: Seq<Seq<char>>, j: int)
    requires
        t.len() + 1 == t1.len(),
        t1.take(t.len() as int) == t,
        covers_paths(t, ov),
        0 <= j < ov.len(),
        same_path(ov[j], t1[t.len() as int]),
    ensures
        covers_paths(t1, ov),
{
    reveal(covers_paths);
    assert forall|m: int| 0 <= m < t1.len() implies #[trigger] covered_at(t1, ov, m) by {
        if m == t.len() {
            assert(path_at(ov, t1[m], j));
        } else {
            assert(t1[m] == t1.take(t.len() as int)[m]);
            assert(t1[m] == t[m]);
            assert(covered_at(t, ov, m));
            let i = choose|i: int| #[trigger] path_at(ov, t[m], i);
            assert(path_at(ov, t1[m], i));
        }
    }
}

proof fn lemma_drawn_insert(t1: Seq<Seq<char>>, k: int, ov: Seq<Seq<char>>, j: int)
    requires
        0 <= k < t1.len(),
        0 <= j <= ov.len(),
        drawn_from_firsts(t1, ov),
        first_of_its_path(t1, k),
    ensures
        drawn_from_firsts(t1, ov.insert(j, t1[k])),
{
    reveal(drawn_from_firsts);
    let w = ov.insert(j, t1[k]);
    assert forall|i: int| 0 <= i < w.len() implies #[trigger] drawn_at(t1, w, i) by {
        if i == j {
            assert(is_first_index(t1, w[i], k));
        } else {
            let i2 = if i < j { i } else { i - 1 };
            assert(w[i] == ov[i2]);
            assert(drawn_at(t1, ov, i2));
            let m = choose|m: int| #[trigger] is_first_index(t1, ov[i2], m);
            assert(is_first_index(t1, w[i], m));
        }
    }
}

proof fn lemma_covers_insert(t: Seq<Seq<char>>, ov: Seq<Seq<char>>, j: int, p: Seq<char>)
    requires
        0 <= j <= ov.len(),
        covers_paths(t, ov),
    ensures
        covers_paths(t, ov.insert(j, p)),
{
    reveal(covers_paths);
    let w = ov.insert(j, p);
    assert forall|m: int| 0 <= m < t.len() implies #[trigger] covered_at(t, w, m) by {
        assert(covered_at(t, ov, m));
        let i = choose|i: int| #[trigger] path_at(ov, t[m], i);
        if i < j {
            assert(w[i] == ov[i]);
            assert(path_at(w, t[m], i));
        } else {
            assert(w[i + 1] == ov[i]);
            assert(path_at(w, t[m], i + 1));
        }
    }
}

proof fn lemma_new_is_first(t: Seq<Seq<char>>, t1: Seq<Seq<char>>, ov: Seq<Seq<char>>, j: int)
    requires
        t.len() + 1 == t1.len(),
        t1.take(t.len() as int) == t,
        covers_paths(t, ov),
        sorted_paths(ov),
        0 <= j <= ov.len(),
        forall|x: int| 0 <= x < j ==> path_lt(#[trigger] ov[x], t1[t.len() as int]),
        j < ov.len() ==> path_lt(t1[t.len() as int], ov[j]),
    ensures
        first_of_its_path(t1, t.len() as int),
{
    reveal(first_of_its_path);
    reveal(covers_paths);
    let k = t.len() as int;
    assert forall|m: int| 0 <= m < k implies !same_path(#[trigger] t1[m], t1[k]) by {
        assert(t1[m] == t1.take(k)[m]);
        assert(t1[m] == t[m]);
        assert(covered_at(t, ov, m));
        let i = choose|i: int| #[trigger] path_at(ov, t[m], i);
        lemma_absent_between(ov, j, t1[k], i);
    }
}

proof fn lemma_step_insert(pv: Seq<Seq<char>>, k: int, ov: Seq<Seq<char>>, j: int)
    requires
        0 <= k < pv.len(),
        sorted_paths(ov),
        0 <= j <= ov.len(),
        forall|i: int| 0 <= i < j ==> path_lt(#[trigger] ov[i], pv[k]),
        j < ov.len() ==> path_lt(pv[k], ov[j]),
        drawn_from_firsts(pv.take(k), ov),
        covers_paths(pv.take(k), ov),
    ensures
        sorted_paths(ov.insert(j, pv[k])),
        drawn_from_firsts(pv.take(k + 1), ov.insert(j, pv[k])),
        covers_paths(pv.take(k + 1), ov.insert(j, pv[k])),
{
    let t = pv.take(k);
    let t1 = pv.take(k + 1);
    assert(t1.take(k) =~= t);
    assert(t1[k] == pv[k]);
    lemma_insert_sorted(ov, j, pv[k]);
    lemma_new_is_first(t, t1, ov, j);
    lemma_drawn_extend(t, t1, ov);
    lemma_drawn_insert(t1, k, ov, j);
    lemma_covers_insert(t, ov, j, pv[k]);
    lemma_insert_sorted(ov, j, pv[k]);
    assert(same_path(ov.insert(j, pv[k])[j], t1[k]));
    lemma_covers_extend(t, t1, ov.insert(j, pv[k]), j);
}

proof fn lemma_step_skip(pv: Seq<Seq<char>>, k: int, ov: Seq<Seq<char>>, j: int)
    requires
        0 <= k < pv.len(),
        0 <= j < ov.len(),
        same_path(ov[j], pv[k]),
        drawn_from_firsts(pv.take(k), ov),
        covers_paths(pv.take(k), ov),
    ensures
        drawn_from_firsts(pv.take(k + 1), ov),
        covers_paths(pv.take(k + 1), ov),
{
    let t = pv.take(k);
    let t1 = pv.take(k + 1);
    assert(t1.take(k) =~= t);
    assert(t1[k] == pv[k]);
    lemma_drawn_extend(t, t1, ov);
    lemma_covers_extend(t, t1, ov, j);
}

/// Sorts paths as `std::path::Path` orders them and drops repeats of a path,
/// keeping the first: what a stable sort followed by `dedup` gives.
pub fn sort_dedup_paths(paths: &Vec<String>) -> (out: Vec<String>)
    ensures
        sorted_distinct_paths(strings_view(paths@), strings_view(out@)),
{
    let ghost pv = strings_view(paths@);
    let mut out: Vec<String> = Vec::new();
    let mut keys: Vec<Vec<Vec<u32>>> = Vec::new();
    let mut k: usize = 0;
    assert(strings_view(out@) =~= Seq::<Seq<char>>::empty());
    proof {
        reveal(sorted_paths);
        reveal(drawn_from_firsts);
        reveal(covers_paths);
    }
    while k < paths.len()
        invariant
            k <= paths@.len(),
            pv == strings_view(paths@),
            keys@.len() == out@.len(),
            forall|i: int| 0 <= i < out@.len() ==> keys_view(#[trigger] keys@[i]@) == path_key(out@[i]@),
            sorted_paths(strings_view(out@)),
            drawn_from_firsts(pv.take(k as int), strings_view(out@)),
            covers_paths(pv.take(k as int), strings_view(out@)),
        decreases paths@.len() - k,
    {
        let ghost ov = strings_view(out@);
        let p = &paths[k];
        assert(pv[k as int] == p@);
        let key = path_key_of(p.as_str());
        let mut j: usize = 0;
        let mut found = false;
        let mut stop = false;
        while !stop && j < keys.len()
            invariant
                j <= keys@.len(),
                keys@.len() == out@.len(),
                ov == strings_view(out@),
                keys_view(key@) == path_key(p@),
                forall|i: int| 0 <= i < out@.len() ==> keys_view(#[trigger] keys@[i]@) == path_key(out@[i]@),
                forall|i: int| 0 <= i < j ==> path_lt(#[trigger] ov[i], p@),
                found ==> stop,
                stop ==> j < out@.len(),
                stop && found ==> same_path(ov[j as int], p@),
                stop && !found ==> path_lt(p@, ov[j as int]),
            decreases keys@.len() - j + (if stop { 0int } else { 1int }),
        {
            let o = keys_order(&keys[j], &key);
            assert(ov[j as int] == out@[j as int]@);
            if o == 0 {
                found = true;
                stop = true;
            } else if o == 1 {
                stop = true;
            } else {
                j += 1;
            }
        }
        if !found {
            proof {
                lemma_step_insert(pv, k as int, ov, j as int);
            }
            let q = p.clone();
            out.insert(j, q);
            keys.insert(j, key);
            assert(strings_view(out@) =~= ov.insert(j as int, pv[k as int]));
            assert forall|i: int| 0 <= i < out@.len() implies keys_view(#[trigger] keys@[i]@) == path_key(
                out@[i]@,
            ) by {
                assert(out@[i]@ == strings_view(out@)[i]);
                if i > j {
                    assert(strings_view(out@)[i] == ov[i - 1]);
                    assert(ov[i - 1] == strings_view(out@)[i]);
                }
            }
        } else {
            proof {
                lemma_step_skip(pv, k as int, ov, j as int);
            }
        }
        k += 1;
    }
    assert(pv.take(paths@.len() as int) =~= pv);
    out
}

} // verus!
