//! Object selectors for partial configuration dumps (`TYPE:NAME`).

use vstd::prelude::*;

use crate::support::error::AppError;
use crate::support::text::{
    append_chars, char_is_control, chars_of, is_control, is_ws, lead_ws, lemma_lead_ws, lemma_trail_ws,
    lemma_trim_unchanged, slice_chars, string_of, trail_ws, trim, trim_chars,
};

verus! {

/// A `:` or `.` separator.
pub open spec fn is_selector_sep(c: char) -> bool {
    c == ':' || c == '.'
}

/// Number of separators in `s`.
pub open spec fn sep_count(s: Seq<char>) -> nat
    decreases s.len(),
{
    if s.len() == 0 {
        0
    } else {
        sep_count(s.drop_last()) + if is_selector_sep(s.last()) {
            1nat
        } else {
            0nat
        }
    }
}

/// Position of the first separator in `s` (its length if there is none).
pub open spec fn first_sep(s: Seq<char>) -> int
    decreases s.len(),
{
    if s.len() == 0 {
        0
    } else if is_selector_sep(s[0]) {
        0
    } else {
        1 + first_sep(s.drop_first())
    }
}

/// Text of the error for a blank type or name.
pub open spec fn blank_error() -> Seq<char> {
    "partial dump objects must not be blank"@
}

/// Text of the error for control characters.
pub open spec fn control_error() -> Seq<char> {
    "partial dump objects must not contain control characters"@
}

/// Text of the error for a wrong number of separators.
pub open spec fn separator_error() -> Seq<char> {
    "partial dump object must use exactly one ':' or '.' separator"@
}

/// A validated `TYPE:NAME` (or legacy `TYPE.NAME`) object selector.
#[derive(Debug, Clone, PartialEq, Eq)]
pub struct PartialDumpSelector {
    requested: String,
    root_type: String,
    name: String,
}

impl View for PartialDumpSelector {
    /// The text as given, the metadata root type, and the object name.
    type V = (Seq<char>, Seq<char>, Seq<char>);

    closed spec fn view(&self) -> (Seq<char>, Seq<char>, Seq<char>) {
        (self.requested@, self.root_type@, self.name@)
    }
}

/// What `PartialDumpSelector::parse` answers for `r`.
pub open spec fn parse_post(r: Seq<char>, out: Result<PartialDumpSelector, AppError>) -> bool {
    let t = trim(r);
    let k = first_sep(t);
    if exists|i: int| 0 <= i < r.len() && is_control(#[trigger] r[i]) {
        out matches Err(AppError::Validation(m)) && m@ == control_error()
    } else if t.len() == 0 {
        out matches Err(AppError::Validation(m)) && m@ == blank_error()
    } else if sep_count(t) != 1 {
        out matches Err(AppError::Validation(m)) && m@ == separator_error()
    } else if trim(t.take(k)).len() == 0 || trim(t.skip(k + 1)).len() == 0 {
        out matches Err(AppError::Validation(m)) && m@ == blank_error()
    } else {
        out matches Ok(sel) && sel@ == (r, trim(t.take(k)), trim(t.skip(k + 1)))
    }
}

proof fn lemma_first_sep(s: Seq<char>)
    ensures
        0 <= first_sep(s) <= s.len(),
        forall|i: int| 0 <= i < first_sep(s) ==> !is_selector_sep(#[trigger] s[i]),
        first_sep(s) < s.len() ==> is_selector_sep(s[first_sep(s)]),
    decreases s.len(),
{
    if s.len() > 0 && !is_selector_sep(s[0]) {
        lemma_first_sep(s.drop_first());
        assert forall|i: int| 0 <= i < first_sep(s) implies !is_selector_sep(#[trigger] s[i]) by {
            if i > 0 {
                assert(s[i] == s.drop_first()[i - 1]);
            }
        }
    }
}

impl PartialDumpSelector {
    /// Parses a selector; the type and the name are trimmed, the requested
    /// text is kept as given.
    pub fn parse(requested: &str) -> (out: Result<Self, AppError>)
        ensures
            parse_post(requested@, out),
    {
        let r = chars_of(requested);
        let mut i: usize = 0;
        while i < r.len()
            invariant
                i <= r@.len(),
                r@ == requested@,
                forall|j: int| 0 <= j < i ==> !is_control(#[trigger] r@[j]),
            decreases r@.len() - i,
        {
            if char_is_control(r[i]) {
                return Err(AppError::Validation(string_of(chars_of("partial dump objects must not contain control characters").as_slice())));
            }
            i += 1;
        }
        let t = trim_chars(r.as_slice());
        if t.len() == 0 {
            return Err(AppError::Validation(string_of(chars_of("partial dump objects must not be blank").as_slice())));
        }
        let mut count: usize = 0;
        let mut first: usize = t.len();
        let mut k: usize = 0;
        proof {
            lemma_first_sep(t@);
        }
        while k < t.len()
            invariant
                k <= t@.len(),
                count == sep_count(t@.take(k as int)),
                count <= k,
                first_sep(t@) < k ==> first == first_sep(t@),
                first_sep(t@) >= k ==> first == t@.len(),
                0 <= first_sep(t@) <= t@.len(),
                forall|i: int| 0 <= i < first_sep(t@) ==> !is_selector_sep(#[trigger] t@[i]),
                first_sep(t@) < t@.len() ==> is_selector_sep(t@[first_sep(t@)]),
            decreases t@.len() - k,
        {
            assert(t@.take(k + 1).drop_last() =~= t@.take(k as int));
            if t[k] == ':' || t[k] == '.' {
                if first == t.len() {
                    first = k;
                }
                count += 1;
            }
            k += 1;
        }
        assert(t@.take(t@.len() as int) =~= t@);
        if count != 1 {
            return Err(AppError::Validation(string_of(chars_of("partial dump object must use exactly one ':' or '.' separator").as_slice())));
        }
        assert(first < t@.len()) by {
            if first_sep(t@) == t@.len() {
                lemma_no_sep_count(t@);
            }
        }
        let root_raw = slice_chars(t.as_slice(), 0, first);
        let name_raw = slice_chars(t.as_slice(), first + 1, t.len());
        assert(root_raw@ =~= t@.take(first as int));
        assert(name_raw@ =~= t@.skip(first + 1));
        let root = trim_chars(root_raw.as_slice());
        let name = trim_chars(name_raw.as_slice());
        if root.len() == 0 || name.len() == 0 {
            return Err(AppError::Validation(string_of(chars_of("partial dump objects must not be blank").as_slice())));
        }
        Ok(Self {
            requested: string_of(r.as_slice()),
            root_type: string_of(root.as_slice()),
            name: string_of(name.as_slice()),
        })
    }

    /// The selector text as given.
    pub fn requested(&self) -> (s: &str)
        ensures
            s@ == self@.0,
    {
        self.requested.as_str()
    }

    /// `TYPE.NAME`, the form Designer accepts.
    pub fn normalized(&self) -> (s: String)
        ensures
            s@ == self@.1 + "."@ + self@.2,
    {
        let mut out = chars_of(self.root_type.as_str());
        out.push('.');
        let n = chars_of(self.name.as_str());
        append_chars(&mut out, n.as_slice());
        assert(out@ =~= self@.1 + "."@ + self@.2) by {
            reveal_strlit(".");
        }
        string_of(out.as_slice())
    }
}

proof fn lemma_no_sep_count(s: Seq<char>)
    requires
        forall|i: int| 0 <= i < s.len() ==> !is_selector_sep(#[trigger] s[i]),
    ensures
        sep_count(s) == 0,
    decreases s.len(),
{
    if s.len() > 0 {
        assert(!is_selector_sep(s[s.len() - 1]));
        lemma_no_sep_count(s.drop_last());
    }
}

proof fn lemma_sep_count_concat(a: Seq<char>, b: Seq<char>)
    ensures
        sep_count(a + b) == sep_count(a) + sep_count(b),
    decreases b.len(),
{
    if b.len() == 0 {
        assert(a + b =~= a);
    } else {
        lemma_sep_count_concat(a, b.drop_last());
        assert((a + b).drop_last() =~= a + b.drop_last());
    }
}

proof fn lemma_zero_count_no_sep(s: Seq<char>)
    requires
        sep_count(s) == 0,
    ensures
        forall|i: int| 0 <= i < s.len() ==> !is_selector_sep(#[trigger] s[i]),
    decreases s.len(),
{
    if s.len() > 0 {
        lemma_zero_count_no_sep(s.drop_last());
        assert forall|i: int| 0 <= i < s.len() implies !is_selector_sep(#[trigger] s[i]) by {
            if i < s.len() - 1 {
                assert(s[i] == s.drop_last()[i]);
            }
        }
    }
}

/// The characters of a trimmed text are those of the text, shifted past its
/// leading whitespace; a non-empty trim neither starts nor ends with whitespace.
proof fn lemma_trim_chars(x: Seq<char>)
    ensures
        lead_ws(x) + trim(x).len() <= x.len(),
        forall|i: int| 0 <= i < trim(x).len() ==> #[trigger] trim(x)[i] == x[i + lead_ws(x)],
        trim(x).len() > 0 ==> !is_ws(trim(x)[0]) && !is_ws(trim(x).last()),
{
    lemma_lead_ws(x);
    let y = x.skip(lead_ws(x) as int);
    lemma_trail_ws(y);
    assert(trim(x) == y.take(y.len() - trail_ws(y)));
    if trim(x).len() > 0 {
        assert(trim(x)[0] == x[lead_ws(x) as int]);
        assert(trim(x).last() == y[y.len() - trail_ws(y) - 1]);
    }
}

/// Parsing the normalized `TYPE.NAME` of a parsed selector succeeds and
/// gives back the same type and name.
pub proof fn law_normalized_selector_round_trip(
    requested: Seq<char>,
    sel: PartialDumpSelector,
    again: Result<PartialDumpSelector, AppError>,
)
    requires
        parse_post(requested, Ok(sel)),
        parse_post(sel@.1 + "."@ + sel@.2, again),
    ensures
        again matches Ok(s2) && s2@ == (sel@.1 + "."@ + sel@.2, sel@.1, sel@.2),
{
    reveal_strlit(".");
    let t = trim(requested);
    let k = first_sep(t);
    let ty = sel@.1;
    let nm = sel@.2;
    let n = ty + "."@ + nm;
    assert(!exists|i: int| 0 <= i < requested.len() && is_control(#[trigger] requested[i]));
    assert(t.len() > 0 && sep_count(t) == 1);
    assert(ty == trim(t.take(k)) && nm == trim(t.skip(k + 1)));
    assert(ty.len() > 0 && nm.len() > 0);
    lemma_first_sep(t);
    if k == t.len() {
        lemma_no_sep_count(t);
    }
    assert(k < t.len());
    assert(t =~= t.take(k) + seq![t[k]] + t.skip(k + 1));
    lemma_no_sep_count(t.take(k));
    lemma_sep_count_concat(t.take(k), seq![t[k]]);
    lemma_sep_count_concat(t.take(k) + seq![t[k]], t.skip(k + 1));
    assert(sep_count(seq![t[k]]) == 1) by {
        assert(seq![t[k]].drop_last() =~= Seq::<char>::empty());
    }
    lemma_zero_count_no_sep(t.skip(k + 1));
    lemma_trim_chars(requested);
    lemma_trim_chars(t.take(k));
    lemma_trim_chars(t.skip(k + 1));
    assert forall|i: int| 0 <= i < ty.len() implies !is_selector_sep(#[trigger] ty[i]) && !is_control(ty[i]) by {
        let j = i + lead_ws(t.take(k));
        assert(ty[i] == t.take(k)[j]);
        assert(t[j] == requested[j + lead_ws(requested)]);
    }
    assert forall|i: int| 0 <= i < nm.len() implies !is_selector_sep(#[trigger] nm[i]) && !is_control(nm[i]) by {
        let j = i + lead_ws(t.skip(k + 1));
        assert(nm[i] == t.skip(k + 1)[j]);
        assert(t[k + 1 + j] == requested[k + 1 + j + lead_ws(requested)]);
    }
    assert forall|i: int| 0 <= i < n.len() implies !is_control(#[trigger] n[i]) by {
        if i < ty.len() {
            assert(n[i] == ty[i]);
        } else if i > ty.len() {
            assert(n[i] == nm[i - ty.len() - 1]);
        }
    }
    assert(n[0] == ty[0]);
    assert(n.last() == nm.last());
    lemma_trim_unchanged(n);
    lemma_trim_unchanged(ty);
    lemma_trim_unchanged(nm);
    lemma_no_sep_count(ty);
    lemma_no_sep_count(nm);
    lemma_sep_count_concat(ty, "."@);
    lemma_sep_count_concat(ty + "."@, nm);
    assert("."@ =~= seq!['.']);
    let dot = seq!['.'];
    assert(dot.len() == 1 && dot.last() == '.' && is_selector_sep(dot.last()));
    assert(dot.drop_last() =~= Seq::<char>::empty());
    assert(sep_count(dot.drop_last()) == 0);
    assert(sep_count(dot) == 1);
    lemma_first_sep(n);
    assert(n[ty.len() as int] == '.');
    if first_sep(n) < ty.len() {
        assert(n[first_sep(n)] == ty[first_sep(n)]);
    }
    assert(first_sep(n) == ty.len());
    assert(n.take(ty.len() as int) =~= ty);
    assert(n.skip(ty.len() as int + 1) =~= nm);
}

} // verus!
