//! Character-level string helpers shared by the library.

use vstd::prelude::*;

verus! {

/// Appends one character to a `String`.
///
/// Calls `String::push`, which std documents as appending the given
/// character to the end of the string.
#[verifier::external_body]
pub(crate) fn push_char(s: &mut String, c: char)
    ensures
        final(s)@ == old(s)@.push(c),
{
    s.push(c);
}

/// The characters of `s`, in order.
pub fn chars_of(s: &str) -> (out: Vec<char>)
    ensures
        out@ == s@,
{
    let mut out: Vec<char> = Vec::new();
    for c in it: s.chars()
        invariant
            out@ == it.seq().take(it.index() as int),
    {
        out.push(c);
    }
    assert(out@ =~= s@);
    out
}

/// A `String` holding exactly the given characters.
pub fn string_of(chars: &[char]) -> (out: String)
    ensures
        out@ == chars@,
{
    let mut out = String::new();
    let mut i: usize = 0;
    while i < chars.len()
        invariant
            i <= chars@.len(),
            out@ == chars@.take(i as int),
        decreases chars@.len() - i,
    {
        push_char(&mut out, chars[i]);
        assert(chars@.take(i + 1) =~= chars@.take(i as int).push(chars@[i as int]));
        i += 1;
    }
    assert(chars@.take(chars@.len() as int) =~= chars@);
    out
}


/// Unicode `White_Space`, the set `char::is_whitespace` tests for.
pub open spec fn is_ws(c: char) -> bool {
    ||| ('\u{9}' <= c && c <= '\u{d}')
    ||| c == ' '
    ||| c == '\u{85}'
    ||| c == '\u{a0}'
    ||| c == '\u{1680}'
    ||| ('\u{2000}' <= c && c <= '\u{200a}')
    ||| c == '\u{2028}'
    ||| c == '\u{2029}'
    ||| c == '\u{202f}'
    ||| c == '\u{205f}'
    ||| c == '\u{3000}'
}

/// Unicode general category `Cc`, the set `char::is_control` tests for.
pub open spec fn is_control(c: char) -> bool {
    c <= '\u{1f}' || ('\u{7f}' <= c && c <= '\u{9f}')
}

/// Executable form of [`is_ws`].
pub fn char_is_ws(c: char) -> (b: bool)
    ensures
        b == is_ws(c),
{
    ('\u{9}' <= c && c <= '\u{d}') || c == ' ' || c == '\u{85}' || c == '\u{a0}' || c == '\u{1680}'
        || ('\u{2000}' <= c && c <= '\u{200a}') || c == '\u{2028}' || c == '\u{2029}' || c
        == '\u{202f}' || c == '\u{205f}' || c == '\u{3000}'
}

/// Executable form of [`is_control`].
pub fn char_is_control(c: char) -> (b: bool)
    ensures
        b == is_control(c),
{
    c <= '\u{1f}' || ('\u{7f}' <= c && c <= '\u{9f}')
}

/// Number of leading whitespace characters of `s`.
pub open spec fn lead_ws(s: Seq<char>) -> nat
    decreases s.len(),
{
    if s.len() > 0 && is_ws(s[0]) {
        1 + lead_ws(s.drop_first())
    } else {
        0
    }
}

/// Number of trailing whitespace characters of `s`.
pub open spec fn trail_ws(s: Seq<char>) -> nat
    decreases s.len(),
{
    if s.len() > 0 && is_ws(s.last()) {
        1 + trail_ws(s.drop_last())
    } else {
        0
    }
}

/// `s` without leading whitespace (`str::trim_start`).
pub open spec fn trim_start(s: Seq<char>) -> Seq<char> {
    s.skip(lead_ws(s) as int)
}

/// `s` without trailing whitespace (`str::trim_end`).
pub open spec fn trim_end(s: Seq<char>) -> Seq<char> {
    s.take(s.len() - trail_ws(s))
}

/// `s` without leading and trailing whitespace (`str::trim`).
pub open spec fn trim(s: Seq<char>) -> Seq<char> {
    trim_end(trim_start(s))
}

pub proof fn lemma_lead_ws(s: Seq<char>)
    ensures
        lead_ws(s) <= s.len(),
        forall|i: int| 0 <= i < lead_ws(s) ==> is_ws(#[trigger] s[i]),
        lead_ws(s) < s.len() ==> !is_ws(s[lead_ws(s) as int]),
    decreases s.len(),
{
    if s.len() > 0 && is_ws(s[0]) {
        lemma_lead_ws(s.drop_first());
        assert forall|i: int| 0 <= i < lead_ws(s) implies is_ws(#[trigger] s[i]) by {
            if i > 0 {
                assert(s[i] == s.drop_first()[i - 1]);
            }
        }
    }
}

pub proof fn lemma_trail_ws(s: Seq<char>)
    ensures
        trail_ws(s) <= s.len(),
        forall|i: int| s.len() - trail_ws(s) <= i < s.len() ==> is_ws(#[trigger] s[i]),
        trail_ws(s) < s.len() ==> !is_ws(s[s.len() - trail_ws(s) - 1]),
    decreases s.len(),
{
    if s.len() > 0 && is_ws(s.last()) {
        lemma_trail_ws(s.drop_last());
        assert forall|i: int| s.len() - trail_ws(s) <= i < s.len() implies is_ws(#[trigger] s[i]) by {
            if i < s.len() - 1 {
                assert(s[i] == s.drop_last()[i]);
            }
        }
    }
}

/// Two characters are equal ignoring ASCII case.
pub open spec fn ascii_lower(c: char) -> char {
    if 'A' <= c && c <= 'Z' {
        ((c as u32) + 32) as char
    } else {
        c
    }
}

pub open spec fn eq_ignore_ascii_case(a: Seq<char>, b: Seq<char>) -> bool {
    a.len() == b.len() && forall|i: int| 0 <= i < a.len() ==> ascii_lower(#[trigger] a[i]) == ascii_lower(b[i])
}

pub fn char_ascii_lower(c: char) -> (r: char)
    ensures
        r == ascii_lower(c),
{
    if 'A' <= c && c <= 'Z' {
        let code: u32 = (c as u32) + 32;
        let r = char_from_ascii_code(code);
        r
    } else {
        c
    }
}

/// The lowercase letter for an uppercase ASCII code.
fn char_from_ascii_code(code: u32) -> (c: char)
    requires
        97 <= code <= 122,
    ensures
        c == code as char,
{
    let b: u8 = code as u8;
    b as char
}


/// Bounds `(start, end)` such that `s[start..end]` is `trim(s)`.
pub fn trim_bounds(s: &[char]) -> (r: (usize, usize))
    ensures
        r.0 <= r.1 <= s@.len(),
        s@.subrange(r.0 as int, r.1 as int) == trim(s@),
        r.0 == lead_ws(s@),
{
    proof {
        lemma_lead_ws(s@);
    }
    let mut start: usize = 0;
    while start < s.len() && char_is_ws(s[start])
        invariant
            start <= s@.len(),
            start <= lead_ws(s@),
            forall|i: int| 0 <= i < lead_ws(s@) ==> is_ws(#[trigger] s@[i]),
            lead_ws(s@) < s@.len() ==> !is_ws(s@[lead_ws(s@) as int]),
            lead_ws(s@) <= s@.len(),
        decreases s@.len() - start,
    {
        start += 1;
    }
    let ghost t = s@.skip(start as int);
    assert(start == lead_ws(s@));
    proof {
        lemma_trail_ws(t);
    }
    let mut end: usize = s.len();
    while end > start && char_is_ws(s[end - 1])
        invariant
            start <= end <= s@.len(),
            t == s@.skip(start as int),
            s@.len() - end <= trail_ws(t),
            trail_ws(t) <= t.len(),
            forall|i: int| t.len() - trail_ws(t) <= i < t.len() ==> is_ws(#[trigger] t[i]),
            trail_ws(t) < t.len() ==> !is_ws(t[t.len() - trail_ws(t) - 1]),
        decreases end,
    {
        assert(t[end - 1 - start] == s@[end - 1]);
        end -= 1;
    }
    assert(s@.len() - end == trail_ws(t)) by {
        if s@.len() - end < trail_ws(t) {
            assert(end > start);
            assert(is_ws(t[end - 1 - start]));
            assert(t[end - 1 - start] == s@[end - 1]);
        }
    }
    assert(s@.subrange(start as int, end as int) =~= trim(s@));
    (start, end)
}

/// The characters `s[start..end]`.
pub fn slice_chars(s: &[char], start: usize, end: usize) -> (out: Vec<char>)
    requires
        start <= end <= s@.len(),
    ensures
        out@ == s@.subrange(start as int, end as int),
{
    let mut out: Vec<char> = Vec::new();
    let mut i = start;
    while i < end
        invariant
            start <= i <= end <= s@.len(),
            out@ == s@.subrange(start as int, i as int),
        decreases end - i,
    {
        out.push(s[i]);
        assert(s@.subrange(start as int, i + 1) =~= s@.subrange(start as int, i as int).push(s@[i as int]));
        i += 1;
    }
    out
}

/// `trim(s)` as a new vector.
pub fn trim_chars(s: &[char]) -> (out: Vec<char>)
    ensures
        out@ == trim(s@),
{
    let (a, b) = trim_bounds(s);
    slice_chars(s, a, b)
}

/// `str::trim` on a string slice.
pub fn trim_str(s: &str) -> (out: String)
    ensures
        out@ == trim(s@),
{
    let cs = chars_of(s);
    let t = trim_chars(cs.as_slice());
    string_of(t.as_slice())
}

/// Character sequences are equal.
pub fn chars_eq(a: &[char], b: &[char]) -> (r: bool)
    ensures
        r == (a@ == b@),
{
    if a.len() != b.len() {
        return false;
    }
    let mut i: usize = 0;
    while i < a.len()
        invariant
            a@.len() == b@.len(),
            i <= a@.len(),
            forall|j: int| 0 <= j < i ==> a@[j] == b@[j],
        decreases a@.len() - i,
    {
        if a[i] != b[i] {
            return false;
        }
        i += 1;
    }
    assert(a@ =~= b@);
    true
}

/// `str::eq_ignore_ascii_case`.
pub fn chars_eq_ignore_ascii_case(a: &[char], b: &[char]) -> (r: bool)
    ensures
        r == eq_ignore_ascii_case(a@, b@),
{
    if a.len() != b.len() {
        return false;
    }
    let mut i: usize = 0;
    while i < a.len()
        invariant
            a@.len() == b@.len(),
            i <= a@.len(),
            forall|j: int| 0 <= j < i ==> ascii_lower(#[trigger] a@[j]) == ascii_lower(b@[j]),
        decreases a@.len() - i,
    {
        if char_ascii_lower(a[i]) != char_ascii_lower(b[i]) {
            return false;
        }
        i += 1;
    }
    true
}

/// `s` begins with `p`.
pub open spec fn has_prefix(s: Seq<char>, p: Seq<char>) -> bool {
    p.len() <= s.len() && s.take(p.len() as int) == p
}

/// `s` begins with `p`, comparing ASCII letters without case.
pub open spec fn has_prefix_ignore_ascii_case(s: Seq<char>, p: Seq<char>) -> bool {
    p.len() <= s.len() && eq_ignore_ascii_case(s.take(p.len() as int), p)
}

/// `s` ends with `p`.
pub open spec fn has_suffix(s: Seq<char>, p: Seq<char>) -> bool {
    p.len() <= s.len() && s.skip(s.len() - p.len()) == p
}

/// `p` occurs in `s` at position `i`.
pub open spec fn occurs_at(s: Seq<char>, p: Seq<char>, i: int) -> bool {
    0 <= i && i + p.len() <= s.len() && s.subrange(i, i + p.len()) == p
}

/// `p` occurs somewhere in `s`.
pub open spec fn contains_seq(s: Seq<char>, p: Seq<char>) -> bool {
    exists|i: int| occurs_at(s, p, i)
}

pub fn starts_with_chars(s: &[char], p: &[char]) -> (r: bool)
    ensures
        r == has_prefix(s@, p@),
{
    if p.len() > s.len() {
        return false;
    }
    let mut i: usize = 0;
    while i < p.len()
        invariant
            p@.len() <= s@.len(),
            i <= p@.len(),
            forall|j: int| 0 <= j < i ==> s@[j] == p@[j],
        decreases p@.len() - i,
    {
        if s[i] != p[i] {
            assert(s@.take(p@.len() as int)[i as int] != p@[i as int]);
            return false;
        }
        i += 1;
    }
    assert(s@.take(p@.len() as int) =~= p@);
    true
}

pub fn starts_with_ignore_ascii_case(s: &[char], p: &[char]) -> (r: bool)
    ensures
        r == has_prefix_ignore_ascii_case(s@, p@),
{
    if p.len() > s.len() {
        return false;
    }
    let mut i: usize = 0;
    while i < p.len()
        invariant
            p@.len() <= s@.len(),
            i <= p@.len(),
            forall|j: int| 0 <= j < i ==> ascii_lower(#[trigger] s@[j]) == ascii_lower(p@[j]),
        decreases p@.len() - i,
    {
        if char_ascii_lower(s[i]) != char_ascii_lower(p[i]) {
            assert(ascii_lower(s@.take(p@.len() as int)[i as int]) != ascii_lower(p@[i as int]));
            return false;
        }
        i += 1;
    }
    assert forall|j: int| 0 <= j < p@.len() implies ascii_lower(#[trigger] s@.take(p@.len() as int)[j])
        == ascii_lower(p@[j]) by {
        assert(s@.take(p@.len() as int)[j] == s@[j]);
    }
    true
}

pub fn ends_with_chars(s: &[char], p: &[char]) -> (r: bool)
    ensures
        r == has_suffix(s@, p@),
{
    if p.len() > s.len() {
        return false;
    }
    let off = s.len() - p.len();
    let mut i: usize = 0;
    while i < p.len()
        invariant
            p@.len() <= s@.len(),
            off == s@.len() - p@.len(),
            s@.len() <= usize::MAX,
            i <= p@.len(),
            forall|j: int| 0 <= j < i ==> s@[off + j] == p@[j],
        decreases p@.len() - i,
    {
        if s[off + i] != p[i] {
            assert(s@.skip(off as int)[i as int] != p@[i as int]);
            return false;
        }
        i += 1;
    }
    assert(s@.skip(off as int) =~= p@);
    true
}

/// Position of the first occurrence of `p` in `s` at or after `from`.
pub fn find_from(s: &[char], p: &[char], from: usize) -> (r: Option<usize>)
    requires
        from <= s@.len(),
    ensures
        match r {
            Some(i) => from <= i && occurs_at(s@, p@, i as int) && forall|j: int|
                from <= j < i ==> !occurs_at(s@, p@, j),
            None => forall|j: int| from <= j ==> !occurs_at(s@, p@, j),
        },
{
    if p.len() > s.len() {
        return None;
    }
    let mut i = from;
    while i <= s.len() - p.len()
        invariant
            from <= i,
            p@.len() <= s@.len(),
            s@.len() <= usize::MAX,
            i <= s@.len(),
            forall|j: int| from <= j < i ==> !occurs_at(s@, p@, j),
        decreases s@.len() - i,
    {
        let mut k: usize = 0;
        let mut ok = true;
        while k < p.len()
            invariant
                i + p@.len() <= s@.len(),
                s@.len() <= usize::MAX,
                k <= p@.len(),
                ok == forall|j: int| 0 <= j < k ==> s@[i + j] == p@[j],
            decreases p@.len() - k,
        {
            if s[i + k] != p[k] {
                ok = false;
            }
            k += 1;
        }
        if ok {
            assert(s@.subrange(i as int, i + p@.len()) =~= p@);
            return Some(i);
        }
        assert(!occurs_at(s@, p@, i as int)) by {
            if occurs_at(s@, p@, i as int) {
                assert forall|j: int| 0 <= j < p@.len() implies s@[i + j] == p@[j] by {
                    assert(s@.subrange(i as int, i + p@.len())[j] == s@[i + j]);
                }
            }
        }
        i += 1;
    }
    None
}

/// `p` occurs in `s` (`str::contains`).
pub fn contains_chars(s: &[char], p: &[char]) -> (r: bool)
    ensures
        r == contains_seq(s@, p@),
{
    match find_from(s, p, 0) {
        Some(_) => true,
        None => false,
    }
}


/// The pieces of `s` between occurrences of `sep` (`str::split` on a char).
pub open spec fn split_on(s: Seq<char>, sep: char) -> Seq<Seq<char>>
    decreases s.len(),
{
    if s.len() == 0 {
        seq![Seq::<char>::empty()]
    } else {
        let rest = split_on(s.drop_first(), sep);
        if s[0] == sep {
            seq![Seq::<char>::empty()] + rest
        } else {
            rest.update(0, seq![s[0]] + rest[0])
        }
    }
}

pub proof fn lemma_split_on_nonempty(s: Seq<char>, sep: char)
    ensures
        split_on(s, sep).len() >= 1,
    decreases s.len(),
{
    if s.len() > 0 {
        lemma_split_on_nonempty(s.drop_first(), sep);
    }
}

/// A text without the separator is a single piece.
pub proof fn lemma_split_on_no_sep(s: Seq<char>, sep: char)
    requires
        forall|i: int| 0 <= i < s.len() ==> s[i] != sep,
    ensures
        split_on(s, sep) == seq![s],
    decreases s.len(),
{
    if s.len() > 0 {
        assert forall|i: int| 0 <= i < s.drop_first().len() implies s.drop_first()[i] != sep by {
            assert(s.drop_first()[i] == s[i + 1]);
        }
        lemma_split_on_no_sep(s.drop_first(), sep);
        assert(s[0] != sep);
        assert(seq![s[0]] + s.drop_first() =~= s);
        assert(split_on(s, sep) =~= seq![s]);
    } else {
        assert(s =~= Seq::<char>::empty());
    }
}

/// Splitting `a`, a separator, then `b` gives the pieces of `a` followed by
/// the pieces of `b`.
pub proof fn lemma_split_on_concat(a: Seq<char>, b: Seq<char>, sep: char)
    ensures
        split_on(a + seq![sep] + b, sep) == split_on(a, sep) + split_on(b, sep),
    decreases a.len(),
{
    let s = a + seq![sep] + b;
    if a.len() == 0 {
        assert(s.drop_first() =~= b);
        assert(split_on(a, sep) =~= seq![Seq::<char>::empty()]);
    } else {
        assert(s.drop_first() =~= a.drop_first() + seq![sep] + b);
        lemma_split_on_concat(a.drop_first(), b, sep);
        lemma_split_on_nonempty(a.drop_first(), sep);
        let ra = split_on(a.drop_first(), sep);
        let rb = split_on(b, sep);
        if a[0] != sep {
            assert((ra + rb).update(0, seq![a[0]] + (ra + rb)[0]) =~= ra.update(0, seq![a[0]] + ra[0]) + rb);
        } else {
            assert(seq![Seq::<char>::empty()] + (ra + rb) =~= (seq![Seq::<char>::empty()] + ra) + rb);
        }
    }
}

/// A text that neither starts nor ends with whitespace is its own trim.
pub proof fn lemma_trim_unchanged(s: Seq<char>)
    requires
        s.len() > 0,
        !is_ws(s[0]),
        !is_ws(s.last()),
    ensures
        trim(s) == s,
{
    assert(lead_ws(s) == 0);
    assert(trim_start(s) =~= s);
    assert(trail_ws(s) == 0);
    assert(trim_end(s) =~= s);
}

/// The character sequences held by a vector of character vectors.
pub open spec fn views_of(v: Seq<Vec<char>>) -> Seq<Seq<char>> {
    v.map_values(|x: Vec<char>| x@)
}

/// `str::split` on a single character.
pub fn split_chars(s: &[char], sep: char) -> (parts: Vec<Vec<char>>)
    ensures
        views_of(parts@) == split_on(s@, sep),
{
    let mut parts: Vec<Vec<char>> = Vec::new();
    parts.push(Vec::new());
    let mut i = s.len();
    assert(s@.skip(s@.len() as int) =~= Seq::<char>::empty());
    assert(views_of(parts@) =~= split_on(s@.skip(i as int), sep));
    while i > 0
        invariant
            i <= s@.len(),
            views_of(parts@) == split_on(s@.skip(i as int), sep),
        decreases i,
    {
        i -= 1;
        let ghost t = s@.skip(i as int);
        assert(t.drop_first() =~= s@.skip(i + 1));
        assert(t[0] == s@[i as int]);
        proof {
            lemma_split_on_nonempty(t.drop_first(), sep);
        }
        let ghost old_views = views_of(parts@);
        if s[i] == sep {
            parts.insert(0, Vec::new());
            assert(views_of(parts@) =~= seq![Seq::<char>::empty()] + old_views);
        } else {
            let ghost old_parts = parts@;
            let mut first = parts.remove(0);
            assert(first@ == old_views[0]);
            first.insert(0, s[i]);
            assert(first@ =~= seq![s@[i as int]] + old_views[0]);
            parts.insert(0, first);
            assert(parts@ =~= old_parts.update(0, first));
            assert(views_of(parts@) =~= old_views.update(0, seq![s@[i as int]] + old_views[0]));
        }
    }
    assert(s@.skip(0) =~= s@);
    parts
}

/// `s` with every non-overlapping occurrence of `pat`, scanned left to
/// right, replaced by `to` (`str::replace`).
pub open spec fn replace_all(s: Seq<char>, pat: Seq<char>, to: Seq<char>) -> Seq<char>
    decreases s.len(),
{
    if pat.len() == 0 || s.len() == 0 {
        s
    } else if has_prefix(s, pat) {
        to + replace_all(s.skip(pat.len() as int), pat, to)
    } else {
        seq![s[0]] + replace_all(s.drop_first(), pat, to)
    }
}

/// No character of `s` is `c`.
pub open spec fn free_of(s: Seq<char>, c: char) -> bool {
    forall|i: int| 0 <= i < s.len() ==> s[i] != c
}

/// Before the first `*` of a masked text, the text is unchanged.
proof fn lemma_masked_prefix(t: Seq<char>, p: Seq<char>, i: int)
    requires
        p.len() > 0,
        0 <= i <= replace_all(t, p, "***"@).len(),
        free_of(replace_all(t, p, "***"@).take(i), '*'),
    ensures
        i <= t.len(),
        replace_all(t, p, "***"@).take(i) == t.take(i),
    decreases t.len(),
{
    reveal_strlit("***");
    let r = replace_all(t, p, "***"@);
    if t.len() == 0 {
        assert(r.take(i) =~= t.take(i));
    } else if has_prefix(t, p) {
        if i > 0 {
            assert(r.take(i)[0] == '*');
        }
        assert(r.take(i) =~= t.take(i));
    } else if i > 0 {
        let rest = replace_all(t.drop_first(), p, "***"@);
        assert(r == seq![t[0]] + rest);
        assert forall|k: int| 0 <= k < i - 1 implies #[trigger] rest.take(i - 1)[k] != '*' by {
            assert(rest.take(i - 1)[k] == r.take(i)[k + 1]);
        }
        lemma_masked_prefix(t.drop_first(), p, i - 1);
        assert(r.take(i) =~= seq![t[0]] + rest.take(i - 1));
        assert(t.take(i) =~= seq![t[0]] + t.drop_first().take(i - 1));
    } else {
        assert(r.take(i) =~= t.take(i));
    }
}

/// Masking every occurrence of a pattern without `*` by `***` leaves no
/// occurrence of it.
pub proof fn lemma_masked_free_of_pattern(s: Seq<char>, p: Seq<char>)
    requires
        p.len() > 0,
        free_of(p, '*'),
    ensures
        !contains_seq(replace_all(s, p, "***"@), p),
    decreases s.len(),
{
    reveal_strlit("***");
    let r = replace_all(s, p, "***"@);
    if s.len() == 0 {
        assert forall|i: int| !occurs_at(r, p, i) by {}
    } else if has_prefix(s, p) {
        let rest = replace_all(s.skip(p.len() as int), p, "***"@);
        lemma_masked_free_of_pattern(s.skip(p.len() as int), p);
        assert(r == "***"@ + rest);
        assert forall|i: int| !occurs_at(r, p, i) by {
            if occurs_at(r, p, i) {
                if i < 3 {
                    assert(r.subrange(i, i + p.len())[0] == r[i]);
                    assert(p[0] == '*');
                } else {
                    assert(rest.subrange(i - 3, i - 3 + p.len()) =~= r.subrange(i, i + p.len()));
                    assert(occurs_at(rest, p, i - 3));
                }
            }
        }
    } else {
        let rest = replace_all(s.drop_first(), p, "***"@);
        lemma_masked_free_of_pattern(s.drop_first(), p);
        assert(r == seq![s[0]] + rest);
        assert forall|i: int| !occurs_at(r, p, i) by {
            if occurs_at(r, p, i) {
                if i >= 1 {
                    assert(rest.subrange(i - 1, i - 1 + p.len()) =~= r.subrange(i, i + p.len()));
                    assert(occurs_at(rest, p, i - 1));
                } else {
                    assert(r.take(p.len() as int) =~= p);
                    lemma_masked_prefix(s, p, p.len() as int);
                    assert(has_prefix(s, p));
                }
            }
        }
    }
}

/// A text without `q` (which holds no `*`) still has no `q` after masking
/// another pattern.
pub proof fn lemma_masked_keeps_absent(t: Seq<char>, p: Seq<char>, q: Seq<char>)
    requires
        p.len() > 0,
        q.len() > 0,
        free_of(q, '*'),
        !contains_seq(t, q),
    ensures
        !contains_seq(replace_all(t, p, "***"@), q),
    decreases t.len(),
{
    reveal_strlit("***");
    let r = replace_all(t, p, "***"@);
    if t.len() == 0 {
        assert forall|i: int| !occurs_at(r, q, i) by {}
    } else if has_prefix(t, p) {
        let tail = t.skip(p.len() as int);
        assert forall|i: int| !occurs_at(tail, q, i) by {
            if occurs_at(tail, q, i) {
                assert(t.subrange(i + p.len(), i + p.len() + q.len()) =~= tail.subrange(i, i + q.len()));
                assert(occurs_at(t, q, i + p.len()));
            }
        }
        let rest = replace_all(tail, p, "***"@);
        lemma_masked_keeps_absent(tail, p, q);
        assert(r == "***"@ + rest);
        assert forall|i: int| !occurs_at(r, q, i) by {
            if occurs_at(r, q, i) {
                if i < 3 {
                    assert(r.subrange(i, i + q.len())[0] == r[i]);
                    assert(q[0] == '*');
                } else {
                    assert(rest.subrange(i - 3, i - 3 + q.len()) =~= r.subrange(i, i + q.len()));
                    assert(occurs_at(rest, q, i - 3));
                }
            }
        }
    } else {
        let tail = t.drop_first();
        assert forall|i: int| !occurs_at(tail, q, i) by {
            if occurs_at(tail, q, i) {
                assert(t.subrange(i + 1, i + 1 + q.len()) =~= tail.subrange(i, i + q.len()));
                assert(occurs_at(t, q, i + 1));
            }
        }
        let rest = replace_all(tail, p, "***"@);
        lemma_masked_keeps_absent(tail, p, q);
        assert(r == seq![t[0]] + rest);
        assert forall|i: int| !occurs_at(r, q, i) by {
            if occurs_at(r, q, i) {
                if i >= 1 {
                    assert(rest.subrange(i - 1, i - 1 + q.len()) =~= r.subrange(i, i + q.len()));
                    assert(occurs_at(rest, q, i - 1));
                } else {
                    assert(r.take(q.len() as int) =~= q);
                    lemma_masked_prefix(t, p, q.len() as int);
                    assert(t.subrange(0, q.len() as int) =~= t.take(q.len() as int));
                    assert(occurs_at(t, q, 0));
                }
            }
        }
    }
}

/// `str::replace` for a non-empty pattern.
pub fn replace_chars(s: &[char], pat: &[char], to: &[char]) -> (out: Vec<char>)
    requires
        pat@.len() > 0,
    ensures
        out@ == replace_all(s@, pat@, to@),
{
    let mut out: Vec<char> = Vec::new();
    let mut i: usize = 0;
    assert(s@.skip(0) =~= s@);
    while i < s.len()
        invariant
            i <= s@.len(),
            pat@.len() > 0,
            out@ + replace_all(s@.skip(i as int), pat@, to@) == replace_all(s@, pat@, to@),
        decreases s@.len() - i,
    {
        let ghost t = s@.skip(i as int);
        let rest = slice_chars(s, i, s.len());
        assert(rest@ =~= t);
        if starts_with_chars(rest.as_slice(), pat) {
            let mut k: usize = 0;
            let ghost out0 = out@;
            while k < to.len()
                invariant
                    k <= to@.len(),
                    out@ == out0 + to@.take(k as int),
                decreases to@.len() - k,
            {
                out.push(to[k]);
                assert(to@.take(k + 1) =~= to@.take(k as int).push(to@[k as int]));
                k += 1;
            }
            assert(to@.take(to@.len() as int) =~= to@);
            assert(t.skip(pat@.len() as int) =~= s@.skip(i + pat@.len()));
            assert(out@ + replace_all(s@.skip(i + pat@.len()), pat@, to@) =~= out0 + replace_all(t, pat@, to@));
            i = i + pat.len();
        } else {
            let ghost out0 = out@;
            out.push(s[i]);
            assert(t.drop_first() =~= s@.skip(i + 1));
            assert(out@ + replace_all(s@.skip(i + 1), pat@, to@) =~= out0 + replace_all(t, pat@, to@));
            i = i + 1;
        }
    }
    assert(s@.skip(i as int) =~= Seq::<char>::empty());
    assert(out@ + Seq::<char>::empty() =~= out@);
    out
}

/// `str::replace` on strings, for a non-empty pattern.
pub fn replace_str(s: &str, pat: &str, to: &str) -> (out: String)
    requires
        pat@.len() > 0,
    ensures
        out@ == replace_all(s@, pat@, to@),
{
    let a = chars_of(s);
    let b = chars_of(pat);
    let c = chars_of(to);
    let r = replace_chars(a.as_slice(), b.as_slice(), c.as_slice());
    string_of(r.as_slice())
}

/// The decimal digit character for `d < 10`.
pub open spec fn digit_char(d: nat) -> char {
    (('0' as nat) + d) as char
}

/// Decimal rendering of `n`, without sign or leading zeros (`to_string`).
pub open spec fn decimal(n: nat) -> Seq<char>
    decreases n,
{
    if n < 10 {
        seq![digit_char(n)]
    } else {
        decimal(n / 10).push(digit_char(n % 10))
    }
}

fn exec_digit_char(d: u64) -> (c: char)
    requires
        d < 10,
    ensures
        c == digit_char(d as nat),
{
    let b: u8 = 48u8 + (d as u8);
    b as char
}

/// Decimal rendering of an unsigned integer.
pub fn u64_decimal(n: u64) -> (out: Vec<char>)
    ensures
        out@ == decimal(n as nat),
{
    let mut acc: Vec<char> = Vec::new();
    let mut m = n;
    while m >= 10
        invariant
            decimal(n as nat) == decimal(m as nat) + acc@,
        decreases m,
    {
        let ghost acc0 = acc@;
        acc.insert(0, exec_digit_char(m % 10));
        assert(decimal(m as nat) == decimal((m / 10) as nat).push(digit_char((m % 10) as nat)));
        assert(decimal(m as nat) + acc0 =~= decimal((m / 10) as nat) + acc@);
        m = m / 10;
    }
    acc.insert(0, exec_digit_char(m));
    assert(decimal(m as nat) + acc@.drop_first() =~= acc@);
    acc
}

/// Decimal rendering of an unsigned integer as a `String`.
pub fn u64_to_string(n: u64) -> (out: String)
    ensures
        out@ == decimal(n as nat),
{
    let v = u64_decimal(n);
    string_of(v.as_slice())
}

/// Decimal rendering of a signed integer (`i64::to_string`).
pub open spec fn signed_decimal(n: int) -> Seq<char> {
    if n < 0 {
        seq!['-'] + decimal((-n) as nat)
    } else {
        decimal(n as nat)
    }
}

pub fn i64_to_string(n: i64) -> (out: String)
    ensures
        out@ == signed_decimal(n as int),
{
    if n < 0 {
        let magnitude: u64 = if n == i64::MIN {
            9223372036854775808u64
        } else {
            (-n) as u64
        };
        let digits = u64_decimal(magnitude);
        let mut v: Vec<char> = Vec::new();
        v.push('-');
        let mut i: usize = 0;
        while i < digits.len()
            invariant
                i <= digits@.len(),
                v@ == seq!['-'] + digits@.take(i as int),
            decreases digits@.len() - i,
        {
            v.push(digits[i]);
            assert(digits@.take(i + 1) =~= digits@.take(i as int).push(digits@[i as int]));
            i += 1;
        }
        assert(digits@.take(digits@.len() as int) =~= digits@);
        string_of(v.as_slice())
    } else {
        u64_to_string(n as u64)
    }
}

/// The pieces joined with `sep` between neighbours (`slice::join`).
pub open spec fn join_with(parts: Seq<Seq<char>>, sep: Seq<char>) -> Seq<char>
    decreases parts.len(),
{
    if parts.len() == 0 {
        Seq::<char>::empty()
    } else if parts.len() == 1 {
        parts[0]
    } else {
        join_with(parts.drop_last(), sep) + sep + parts.last()
    }
}

/// Appends `extra` to `out`.
pub fn append_chars(out: &mut Vec<char>, extra: &[char])
    ensures
        final(out)@ == old(out)@ + extra@,
{
    let mut k: usize = 0;
    let ghost start = out@;
    while k < extra.len()
        invariant
            k <= extra@.len(),
            out@ == start + extra@.take(k as int),
        decreases extra@.len() - k,
    {
        out.push(extra[k]);
        assert(extra@.take(k + 1) =~= extra@.take(k as int).push(extra@[k as int]));
        k += 1;
    }
    assert(extra@.take(extra@.len() as int) =~= extra@);
}

/// Appends the characters of `extra` to `out`.
pub fn append_str(out: &mut Vec<char>, extra: &str)
    ensures
        final(out)@ == old(out)@ + extra@,
{
    let cs = chars_of(extra);
    append_chars(out, cs.as_slice());
}

/// `slice::join` over strings.
pub fn join_strings(parts: &Vec<String>, sep: &str) -> (out: String)
    ensures
        out@ == join_with(parts.deep_view(), sep@),
{
    let mut out: Vec<char> = Vec::new();
    let mut i: usize = 0;
    while i < parts.len()
        invariant
            i <= parts@.len(),
            out@ == join_with(parts.deep_view().take(i as int), sep@),
        decreases parts@.len() - i,
    {
        let ghost before = parts.deep_view().take(i as int);
        if i > 0 {
            append_str(&mut out, sep);
        }
        append_str(&mut out, parts[i].as_str());
        assert(parts.deep_view().take(i + 1).drop_last() =~= before);
        assert(parts.deep_view()[i as int] == parts@[i as int]@);
        i += 1;
    }
    assert(parts.deep_view().take(parts@.len() as int) =~= parts.deep_view());
    string_of(out.as_slice())
}

/// The first occurrence of `p` in `s` at or after `from`.
pub open spec fn occurrence_from(s: Seq<char>, p: Seq<char>, from: int) -> Option<int>
    decreases s.len() - from,
{
    if from < 0 || from + p.len() > s.len() {
        None
    } else if occurs_at(s, p, from) {
        Some(from)
    } else if from >= s.len() {
        None
    } else {
        occurrence_from(s, p, from + 1)
    }
}

/// The pieces of `s` between non-overlapping occurrences of the non-empty
/// `p`, found left to right (`str::split` with a string pattern).
pub open spec fn split_on_text(s: Seq<char>, p: Seq<char>) -> Seq<Seq<char>>
    decreases s.len(),
{
    if p.len() == 0 {
        seq![s]
    } else {
        match occurrence_from(s, p, 0) {
            None => seq![s],
            Some(i) => if 0 <= i && i + p.len() <= s.len() {
                seq![s.take(i)] + split_on_text(s.skip(i + p.len()), p)
            } else {
                seq![s]
            },
        }
    }
}

proof fn lemma_occurrence_from(s: Seq<char>, p: Seq<char>, from: int, i: int)
    requires
        0 <= from <= i,
        occurs_at(s, p, i),
        forall|j: int| from <= j < i ==> !occurs_at(s, p, j),
    ensures
        occurrence_from(s, p, from) == Some(i),
    decreases i - from,
{
    if from < i {
        lemma_occurrence_from(s, p, from + 1, i);
    }
}

proof fn lemma_no_occurrence_from(s: Seq<char>, p: Seq<char>, from: int)
    requires
        0 <= from,
        forall|j: int| from <= j ==> !occurs_at(s, p, j),
    ensures
        occurrence_from(s, p, from) is None,
    decreases s.len() - from,
{
    if from + p.len() <= s.len() && from < s.len() {
        lemma_no_occurrence_from(s, p, from + 1);
    }
}

proof fn lemma_occurs_shift(s: Seq<char>, p: Seq<char>, start: int, j: int)
    requires
        0 <= start <= s.len(),
        0 <= j,
    ensures
        occurs_at(s.skip(start), p, j) == occurs_at(s, p, start + j),
{
    if occurs_at(s, p, start + j) {
        assert(s.skip(start).subrange(j, j + p.len()) =~= s.subrange(start + j, start + j + p.len()));
    }
    if occurs_at(s.skip(start), p, j) {
        assert(s.skip(start).subrange(j, j + p.len()) =~= s.subrange(start + j, start + j + p.len()));
    }
}

/// `str::split` with a non-empty string pattern.
pub fn split_text(s: &[char], p: &[char]) -> (parts: Vec<Vec<char>>)
    requires
        p@.len() > 0,
    ensures
        views_of(parts@) == split_on_text(s@, p@),
{
    let mut parts: Vec<Vec<char>> = Vec::new();
    let mut start: usize = 0;
    let mut done = false;
    assert(s@.skip(0) =~= s@);
    while !done
        invariant
            p@.len() > 0,
            start <= s@.len(),
            done ==> views_of(parts@) == split_on_text(s@, p@),
            !done ==> views_of(parts@) + split_on_text(s@.skip(start as int), p@) == split_on_text(s@, p@),
        decreases s@.len() - start + (if done { 0int } else { 1int }),
    {
        let ghost t = s@.skip(start as int);
        let ghost before = views_of(parts@);
        match find_from(s, p, start) {
            Some(i) => {
                proof {
                    assert forall|j: int| 0 <= j < i - start implies !occurs_at(t, p@, j) by {
                        lemma_occurs_shift(s@, p@, start as int, j);
                    }
                    lemma_occurs_shift(s@, p@, start as int, i - start);
                    lemma_occurrence_from(t, p@, 0, i - start);
                }
                let piece = slice_chars(s, start, i);
                parts.push(piece);
                let slen = s.len();
                let plen = p.len();
                assert(i + plen <= slen);
                assert(t.take(i - start) =~= s@.subrange(start as int, i as int));
                assert(t.skip(i - start + p@.len()) =~= s@.skip(i + p@.len()));
                assert(views_of(parts@) =~= before.push(t.take(i - start)));
                assert(views_of(parts@) + split_on_text(s@.skip(i + p@.len()), p@) =~= before
                    + split_on_text(t, p@));
                start = i + plen;
            },
            None => {
                proof {
                    assert forall|j: int| 0 <= j implies !occurs_at(t, p@, j) by {
                        lemma_occurs_shift(s@, p@, start as int, j);
                    }
                    lemma_no_occurrence_from(t, p@, 0);
                }
                let piece = slice_chars(s, start, s.len());
                assert(piece@ =~= t);
                parts.push(piece);
                assert(views_of(parts@) =~= before + seq![t]);
                done = true;
            },
        }
    }
    parts
}

/// The characters of an optional string slice.
pub open spec fn opt_str_view(o: Option<&str>) -> Option<Seq<char>> {
    match o {
        Some(s) => Some(s@),
        None => None,
    }
}

} // verus!
