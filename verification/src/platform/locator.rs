//! Discovery of 1C platform and EDT executables.
//!
//! Everything the search reads from the file system is handed in as plain
//! facts ([`SearchFacts`]): what a hint path is, which version directories
//! the search roots hold, and where each candidate executable canonically
//! lives. The locator decides from those facts alone.

use vstd::prelude::*;

use std::cmp::Ordering;

use crate::platform::process::strings_view;
use crate::support::number::{
    is_ascii_digit, lemma_decimal_digits, lemma_parse_decimal, parse_u32_chars, parse_u32_spec,
};
use crate::support::path::{
    file_name, join, join_path, parent, path_eq, path_file_name, path_parent, path_starts_with,
    paths_equal, starts_with_path, is_abs,
};
use crate::support::path_order::{keys_order, path_key, path_key_of, path_lt, units_lt, units_order};
use crate::support::text::{
    append_chars, chars_of, is_ws, lemma_split_on_concat, lemma_split_on_no_sep, lemma_trim_unchanged,
    split_chars, split_on, string_of, trim, trim_chars, u64_decimal, decimal, opt_str_view, views_of,
};

verus! {

/// Executable-oriented platform utility identifiers.
#[derive(Debug, Clone, Copy, PartialEq, Eq, Hash, Structural)]
pub enum UtilityType {
    /// `1cv8`
    V8,
    /// `1cv8c`
    V8C,
    /// `ibcmd`
    Ibcmd,
    /// `1cedtcli`
    EdtCli,
}

/// Executable file name of a utility on Unix-like hosts (no `.exe` suffix).
pub open spec fn executable_name_of(u: UtilityType) -> Seq<char> {
    match u {
        UtilityType::V8 => "1cv8"@,
        UtilityType::V8C => "1cv8c"@,
        UtilityType::Ibcmd => "ibcmd"@,
        UtilityType::EdtCli => "1cedtcli"@,
    }
}

impl UtilityType {
    /// Executable filename of the utility on Unix-like hosts: the bare name,
    /// without a Windows `.exe` suffix.
    pub fn executable_name(self) -> (r: &'static str)
        ensures
            r@ == executable_name_of(self),
    {
        match self {
            Self::V8 => "1cv8",
            Self::V8C => "1cv8c",
            Self::Ibcmd => "ibcmd",
            Self::EdtCli => "1cedtcli",
        }
    }

    /// Returns `true` for regular 1C platform binaries.
    pub fn is_platform(self) -> (b: bool)
        ensures
            b == !(self is EdtCli),
    {
        !matches!(self, Self::EdtCli)
    }

    /// The executable name, as the utility is shown in messages.
    pub fn to_string(self) -> (s: String)
        ensures
            s@ == executable_name_of(self),
    {
        let cs = chars_of(self.executable_name());
        string_of(cs.as_slice())
    }
}

/// The numbers of `.`-separated pieces, each trimmed and parsed as `u32`;
/// `None` if any piece does not parse.
pub open spec fn parse_all(pieces: Seq<Seq<char>>) -> Option<Seq<u32>>
    decreases pieces.len(),
{
    if pieces.len() == 0 {
        Some(Seq::empty())
    } else {
        match (parse_all(pieces.drop_last()), parse_u32_spec(trim(pieces.last()))) {
            (Some(v), Some(x)) => Some(v.push(x)),
            _ => None,
        }
    }
}

/// The dotted numbers of `value`.
pub open spec fn dotted_numbers(value: Seq<char>) -> Option<Seq<u32>> {
    parse_all(split_on(value, '.'))
}

/// Parses every `.`-separated piece of `value`, trimmed, as `u32`.
fn parse_dotted(value: &str) -> (r: Option<Vec<u32>>)
    ensures
        match r {
            Some(v) => dotted_numbers(value@) == Some(v@),
            None => dotted_numbers(value@) is None,
        },
{
    let cs = chars_of(value);
    let pieces = split_chars(cs.as_slice(), '.');
    let ghost pv = views_of(pieces@);
    let mut out: Vec<u32> = Vec::new();
    let mut i: usize = 0;
    while i < pieces.len()
        invariant
            i <= pieces@.len(),
            pv == views_of(pieces@),
            pv == split_on(value@, '.'),
            parse_all(pv.take(i as int)) == Some(out@),
        decreases pieces@.len() - i,
    {
        assert(pv.take(i + 1).drop_last() =~= pv.take(i as int));
        assert(pv[i as int] == pieces@[i as int]@);
        let t = trim_chars(pieces[i].as_slice());
        match parse_u32_chars(t.as_slice()) {
            Some(x) => {
                out.push(x);
            },
            None => {
                proof {
                    lemma_parse_all_none_extends(pv, i as int + 1);
                }
                return None;
            },
        }
        i += 1;
    }
    assert(pv.take(pieces@.len() as int) =~= pv);
    Some(out)
}

/// A failing prefix makes the whole sequence fail.
proof fn lemma_parse_all_none_extends(pieces: Seq<Seq<char>>, k: int)
    requires
        0 <= k <= pieces.len(),
        parse_all(pieces.take(k)) is None,
    ensures
        parse_all(pieces) is None,
    decreases pieces.len() - k,
{
    if k < pieces.len() {
        assert(pieces.take(k + 1).drop_last() =~= pieces.take(k));
        lemma_parse_all_none_extends(pieces, k + 1);
    } else {
        assert(pieces.take(k) =~= pieces);
    }
}

/// Exact 4-part 1C platform version.
#[derive(Debug, Clone, Copy, PartialEq, Eq, Hash, PartialOrd, Ord, Structural)]
pub struct PlatformVersion {
    /// Major version component.
    pub major: u32,
    /// Minor version component.
    pub minor: u32,
    /// Patch version component.
    pub patch: u32,
    /// Build version component.
    pub build: u32,
}

/// `a` is an earlier platform version than `b`, comparing components in order.
pub open spec fn platform_version_lt(a: PlatformVersion, b: PlatformVersion) -> bool {
    ||| a.major < b.major
    ||| (a.major == b.major && a.minor < b.minor)
    ||| (a.major == b.major && a.minor == b.minor && a.patch < b.patch)
    ||| (a.major == b.major && a.minor == b.minor && a.patch == b.patch && a.build < b.build)
}

/// The version written as exactly four dotted numbers, if `value` is one.
pub open spec fn strict_version_of(value: Seq<char>) -> Option<PlatformVersion> {
    match dotted_numbers(value) {
        Some(n) => if n.len() == 4 {
            Some(PlatformVersion { major: n[0], minor: n[1], patch: n[2], build: n[3] })
        } else {
            None
        },
        None => None,
    }
}

/// `major.minor.patch.build`.
pub open spec fn platform_version_text(v: PlatformVersion) -> Seq<char> {
    decimal(v.major as nat) + "."@ + decimal(v.minor as nat) + "."@ + decimal(v.patch as nat) + "."@
        + decimal(v.build as nat)
}

/// Appends the decimal digits of `n` and, if `dot`, a `.` before them.
fn push_number(out: &mut Vec<char>, n: u32, dot: bool)
    ensures
        final(out)@ == old(out)@ + (if dot {
            "."@
        } else {
            Seq::<char>::empty()
        }) + decimal(n as nat),
{
    proof {
        reveal_strlit(".");
    }
    let ghost start = out@;
    if dot {
        out.push('.');
    }
    let d = u64_decimal(n as u64);
    append_chars(out, d.as_slice());
    if dot {
        assert(out@ =~= start + "."@ + decimal(n as nat));
    } else {
        assert(out@ =~= start + Seq::<char>::empty() + decimal(n as nat));
    }
}

impl PlatformVersion {
    /// Parse a strict `major.minor.patch.build` string.
    pub fn parse_strict(value: &str) -> (r: Option<Self>)
        ensures
            r == strict_version_of(value@),
    {
        let parts = match parse_dotted(value) {
            Some(p) => p,
            None => return None,
        };
        if parts.len() != 4 {
            return None;
        }
        Some(Self { major: parts[0], minor: parts[1], patch: parts[2], build: parts[3] })
    }

    /// `major.minor.patch.build`.
    pub fn to_string(&self) -> (s: String)
        ensures
            s@ == platform_version_text(*self),
    {
        let mut out: Vec<char> = Vec::new();
        push_number(&mut out, self.major, false);
        push_number(&mut out, self.minor, true);
        push_number(&mut out, self.patch, true);
        push_number(&mut out, self.build, true);
        assert(out@ =~= platform_version_text(*self));
        string_of(out.as_slice())
    }
}

/// 1C platform version requirement from configuration.
#[derive(Debug, Clone, Copy, PartialEq, Eq, Hash, Structural)]
pub struct PlatformVersionRequirement {
    /// Major version component.
    pub major: u32,
    /// Minor version component.
    pub minor: u32,
    /// Optional patch version component.
    pub patch: Option<u32>,
    /// Optional build version component.
    pub build: Option<u32>,
}

/// The requirement written as two to four dotted numbers, if `value` is one.
pub open spec fn requirement_of(value: Seq<char>) -> Option<PlatformVersionRequirement> {
    match dotted_numbers(value) {
        Some(n) => if 2 <= n.len() <= 4 {
            Some(
                PlatformVersionRequirement {
                    major: n[0],
                    minor: n[1],
                    patch: if n.len() >= 3 {
                        Some(n[2])
                    } else {
                        None
                    },
                    build: if n.len() == 4 {
                        Some(n[3])
                    } else {
                        None
                    },
                },
            )
        } else {
            None
        },
        None => None,
    }
}

/// A version satisfies a requirement: equal major and minor, and equal patch
/// and build where the requirement names them.
pub open spec fn requirement_matches(r: PlatformVersionRequirement, v: PlatformVersion) -> bool {
    &&& r.major == v.major
    &&& r.minor == v.minor
    &&& (r.patch matches Some(p) ==> p == v.patch)
    &&& (r.build matches Some(b) ==> b == v.build)
}

/// A requirement names a build only together with a patch.
pub open spec fn requirement_well_formed(r: PlatformVersionRequirement) -> bool {
    r.build is Some ==> r.patch is Some
}

/// The requirement as written: its two to four dotted numbers.
pub open spec fn requirement_text(r: PlatformVersionRequirement) -> Seq<char> {
    decimal(r.major as nat) + "."@ + decimal(r.minor as nat) + match r.patch {
        Some(p) => "."@ + decimal(p as nat) + match r.build {
            Some(b) => "."@ + decimal(b as nat),
            None => Seq::empty(),
        },
        None => Seq::empty(),
    }
}

/// The decimal texts of numbers.
pub open spec fn decimal_texts(ns: Seq<u32>) -> Seq<Seq<char>> {
    ns.map_values(|n: u32| decimal(n as nat))
}

/// Decimal text holds no `.`, and neither starts nor ends with whitespace.
proof fn lemma_decimal_plain(n: u32)
    ensures
        forall|i: int| 0 <= i < decimal(n as nat).len() ==> decimal(n as nat)[i] != '.',
        trim(decimal(n as nat)) == decimal(n as nat),
{
    lemma_decimal_digits(n as nat);
    let d = decimal(n as nat);
    assert forall|i: int| 0 <= i < d.len() implies d[i] != '.' by {
        assert(is_ascii_digit(d[i]));
    }
    assert(is_ascii_digit(d[0]));
    assert(is_ascii_digit(d.last()));
    lemma_trim_unchanged(d);
}

/// Splitting dotted numbers at `.` gives their decimal texts.
proof fn lemma_split_dotted(ns: Seq<u32>)
    requires
        ns.len() >= 1,
    ensures
        split_on(dotted_text(ns), '.') == decimal_texts(ns),
    decreases ns.len(),
{
    let last = ns.last();
    lemma_decimal_plain(last);
    reveal_strlit(".");
    assert("."@ =~= seq!['.']);
    if ns.len() == 1 {
        lemma_split_on_no_sep(decimal(last as nat), '.');
        assert(decimal_texts(ns) =~= seq![decimal(last as nat)]);
    } else {
        lemma_split_dotted(ns.drop_last());
        lemma_split_on_concat(dotted_text(ns.drop_last()), decimal(last as nat), '.');
        lemma_split_on_no_sep(decimal(last as nat), '.');
        assert(decimal_texts(ns) =~= decimal_texts(ns.drop_last()) + seq![decimal(last as nat)]);
    }
}

/// Reading the decimal texts of numbers gives the numbers back.
proof fn lemma_parse_all_decimals(ns: Seq<u32>)
    ensures
        parse_all(decimal_texts(ns)) == Some(ns),
    decreases ns.len(),
{
    if ns.len() > 0 {
        lemma_parse_all_decimals(ns.drop_last());
        assert(decimal_texts(ns).drop_last() =~= decimal_texts(ns.drop_last()));
        lemma_decimal_plain(ns.last());
        lemma_parse_decimal(ns.last());
        assert(ns.drop_last().push(ns.last()) =~= ns);
    } else {
        assert(decimal_texts(ns) =~= Seq::<Seq<char>>::empty());
        assert(ns =~= Seq::<u32>::empty());
    }
}

/// Reading dotted numbers gives them back.
proof fn lemma_dotted_round_trip(ns: Seq<u32>)
    requires
        ns.len() >= 1,
    ensures
        dotted_numbers(dotted_text(ns)) == Some(ns),
{
    lemma_split_dotted(ns);
    lemma_parse_all_decimals(ns);
}

/// Writing a platform version and reading it back gives the same version.
pub proof fn law_version_text_round_trip(v: PlatformVersion)
    ensures
        strict_version_of(platform_version_text(v)) == Some(v),
{
    let ns = seq![v.major, v.minor, v.patch, v.build];
    reveal_strlit(".");
    let one = seq![v.major];
    let two = seq![v.major, v.minor];
    let three = seq![v.major, v.minor, v.patch];
    assert(two.drop_last() =~= one);
    assert(three.drop_last() =~= two);
    assert(ns.drop_last() =~= three);
    assert(dotted_text(one) == decimal(v.major as nat));
    assert(dotted_text(two) == dotted_text(one) + "."@ + decimal(v.minor as nat));
    assert(dotted_text(three) == dotted_text(two) + "."@ + decimal(v.patch as nat));
    assert(dotted_text(ns) == dotted_text(three) + "."@ + decimal(v.build as nat));
    assert(dotted_text(ns) =~= platform_version_text(v));
    lemma_dotted_round_trip(ns);
}

/// Writing a well-formed requirement and reading it back gives the same requirement.
pub proof fn law_requirement_text_round_trip(r: PlatformVersionRequirement)
    requires
        requirement_well_formed(r),
    ensures
        requirement_of(requirement_text(r)) == Some(r),
{
    reveal_strlit(".");
    let one = seq![r.major];
    let two = seq![r.major, r.minor];
    assert(two.drop_last() =~= one);
    assert(dotted_text(one) == decimal(r.major as nat));
    assert(dotted_text(two) == dotted_text(one) + "."@ + decimal(r.minor as nat));
    match r.patch {
        None => {
            assert(dotted_text(two) =~= requirement_text(r));
            lemma_dotted_round_trip(two);
        },
        Some(p) => {
            let three = seq![r.major, r.minor, p];
            assert(three.drop_last() =~= two);
            assert(dotted_text(three) == dotted_text(two) + "."@ + decimal(p as nat));
            match r.build {
                None => {
                    assert(dotted_text(three) =~= requirement_text(r));
                    lemma_dotted_round_trip(three);
                },
                Some(b) => {
                    let four = seq![r.major, r.minor, p, b];
                    assert(four.drop_last() =~= three);
                    assert(dotted_text(four) == dotted_text(three) + "."@ + decimal(b as nat));
                    assert(dotted_text(four) =~= requirement_text(r));
                    lemma_dotted_round_trip(four);
                },
            }
        },
    }
}

impl PlatformVersionRequirement {
    /// Parse `major.minor`, `major.minor.patch`, or `major.minor.patch.build`.
    pub fn parse(value: &str) -> (r: Option<Self>)
        ensures
            r == requirement_of(value@),
            r matches Some(q) ==> requirement_well_formed(q),
    {
        let parts = match parse_dotted(value) {
            Some(p) => p,
            None => return None,
        };
        if parts.len() < 2 || parts.len() > 4 {
            return None;
        }
        let patch = if parts.len() >= 3 {
            Some(parts[2])
        } else {
            None
        };
        let build = if parts.len() == 4 {
            Some(parts[3])
        } else {
            None
        };
        Some(Self { major: parts[0], minor: parts[1], patch, build })
    }

    /// Returns `true` when a discovered platform version satisfies this requirement.
    pub fn matches(&self, version: &PlatformVersion) -> (b: bool)
        ensures
            b == requirement_matches(*self, *version),
    {
        self.major == version.major && self.minor == version.minor && match self.patch {
            Some(p) => p == version.patch,
            None => true,
        } && match self.build {
            Some(b) => b == version.build,
            None => true,
        }
    }

    /// The requirement as written: `major.minor[.patch[.build]]`.
    pub fn to_string(&self) -> (s: String)
        requires
            requirement_well_formed(*self),
        ensures
            s@ == requirement_text(*self),
    {
        let mut out: Vec<char> = Vec::new();
        push_number(&mut out, self.major, false);
        push_number(&mut out, self.minor, true);
        let ghost head = out@;
        match self.patch {
            Some(p) => {
                push_number(&mut out, p, true);
                let ghost mid = out@;
                match self.build {
                    Some(b) => {
                        push_number(&mut out, b, true);
                        assert(out@ =~= head + ("."@ + decimal(p as nat) + ("."@ + decimal(
                            b as nat,
                        ))));
                    },
                    None => {
                        assert(out@ =~= head + ("."@ + decimal(p as nat) + Seq::<char>::empty()));
                    },
                }
            },
            None => {
                assert(out@ =~= head + Seq::<char>::empty());
            },
        }
        assert(out@ =~= requirement_text(*self));
        string_of(out.as_slice())
    }
}

/// The pieces of `s` between characters that are not ASCII digits
/// (`str::split` with that predicate).
pub open spec fn split_non_digits(s: Seq<char>) -> Seq<Seq<char>>
    decreases s.len(),
{
    if s.len() == 0 {
        seq![Seq::<char>::empty()]
    } else {
        let p = split_non_digits(s.drop_last());
        if is_ascii_digit(s.last()) {
            p.update(p.len() - 1, p.last().push(s.last()))
        } else {
            p.push(Seq::<char>::empty())
        }
    }
}

pub proof fn lemma_split_non_digits_nonempty(s: Seq<char>)
    ensures
        split_non_digits(s).len() >= 1,
    decreases s.len(),
{
    if s.len() > 0 {
        lemma_split_non_digits_nonempty(s.drop_last());
    }
}

/// The numbers of the non-empty digit runs that fit in `u32`, in order.
pub open spec fn run_numbers(pieces: Seq<Seq<char>>) -> Seq<u32>
    decreases pieces.len(),
{
    if pieces.len() == 0 {
        Seq::empty()
    } else {
        let prev = run_numbers(pieces.drop_last());
        let p = pieces.last();
        if p.len() > 0 {
            match parse_u32_spec(p) {
                Some(x) => prev.push(x),
                None => prev,
            }
        } else {
            prev
        }
    }
}

/// The numeric tokens of `value`; digit runs too large for `u32` are skipped.
pub open spec fn lenient_numbers(value: Seq<char>) -> Seq<u32> {
    run_numbers(split_non_digits(value))
}

/// EDT discovery version parsed leniently from numeric tokens.
#[derive(Debug, Clone, PartialEq, Eq, Hash, PartialOrd, Ord)]
pub struct EdtVersion {
    /// Numeric tokens extracted from a path or directory name.
    pub parts: Vec<u32>,
}

/// The runs of `s` between non-digit characters.
fn digit_runs(s: &[char]) -> (out: Vec<Vec<char>>)
    ensures
        views_of(out@) == split_non_digits(s@),
{
    let mut out: Vec<Vec<char>> = Vec::new();
    out.push(Vec::new());
    let mut i: usize = 0;
    assert(views_of(out@) =~= split_non_digits(s@.take(0)));
    while i < s.len()
        invariant
            i <= s@.len(),
            views_of(out@) == split_non_digits(s@.take(i as int)),
        decreases s@.len() - i,
    {
        let c = s[i];
        let ghost before = views_of(out@);
        assert(s@.take(i + 1).drop_last() =~= s@.take(i as int));
        assert(s@.take(i + 1).last() == c);
        proof {
            lemma_split_non_digits_nonempty(s@.take(i as int));
        }
        if '0' <= c && c <= '9' {
            let n = out.len();
            let mut last = out.pop().unwrap();
            assert(last@ == before.last());
            last.push(c);
            out.push(last);
            assert(views_of(out@) =~= before.update(before.len() - 1, before.last().push(c)));
        } else {
            out.push(Vec::new());
            assert(views_of(out@) =~= before.push(Seq::<char>::empty()));
        }
        i += 1;
    }
    assert(s@.take(s@.len() as int) =~= s@);
    out
}

impl EdtVersion {
    /// Parse a version from any string that contains numeric tokens.
    pub fn parse_lenient(value: &str) -> (r: Option<Self>)
        ensures
            match r {
                Some(v) => v.parts@ == lenient_numbers(value@) && v.parts@.len() > 0,
                None => lenient_numbers(value@).len() == 0,
            },
    {
        let cs = chars_of(value);
        let runs = digit_runs(cs.as_slice());
        let ghost rv = views_of(runs@);
        let mut parts: Vec<u32> = Vec::new();
        let mut i: usize = 0;
        while i < runs.len()
            invariant
                i <= runs@.len(),
                rv == views_of(runs@),
                rv == split_non_digits(value@),
                parts@ == run_numbers(rv.take(i as int)),
            decreases runs@.len() - i,
        {
            assert(rv.take(i + 1).drop_last() =~= rv.take(i as int));
            assert(rv[i as int] == runs@[i as int]@);
            if runs[i].len() > 0 {
                match parse_u32_chars(runs[i].as_slice()) {
                    Some(x) => parts.push(x),
                    None => {},
                }
            }
            i += 1;
        }
        assert(rv.take(runs@.len() as int) =~= rv);
        if parts.len() == 0 {
            None
        } else {
            Some(Self { parts })
        }
    }
}

/// Parsed utility version metadata.
#[derive(Debug, Clone, PartialEq, Eq, Hash)]
pub enum UtilityVersion {
    /// Exact 1C platform version.
    Platform(PlatformVersion),
    /// Lenient EDT discovery version.
    Edt(EdtVersion),
}

/// The plain values of a version.
pub ghost enum VersionView {
    Platform(PlatformVersion),
    Edt(Seq<u32>),
}

/// The plain values of an optional version.
pub open spec fn opt_version_view(v: Option<UtilityVersion>) -> Option<VersionView> {
    match v {
        Some(UtilityVersion::Platform(p)) => Some(VersionView::Platform(p)),
        Some(UtilityVersion::Edt(e)) => Some(VersionView::Edt(e.parts@)),
        None => None,
    }
}

/// How two optional versions compare when picking the highest: platform
/// versions by their components, EDT versions by their numbers; a known
/// version beats an unknown one; versions of different kinds tie.
/// Returns -1, 0 or 1.
pub open spec fn version_order(l: Option<VersionView>, r: Option<VersionView>) -> int {
    match (l, r) {
        (Some(VersionView::Platform(a)), Some(VersionView::Platform(b))) => if platform_version_lt(a, b) {
            -1
        } else if a == b {
            0
        } else {
            1
        },
        (Some(VersionView::Edt(a)), Some(VersionView::Edt(b))) => if units_lt(a, b) {
            -1
        } else if a == b {
            0
        } else {
            1
        },
        (Some(_), Some(_)) => 0,
        (Some(_), None) => 1,
        (None, Some(_)) => -1,
        (None, None) => 0,
    }
}

/// Three-way comparison of platform versions: -1, 0 or 1.
fn platform_version_order(a: &PlatformVersion, b: &PlatformVersion) -> (r: i8)
    ensures
        r == (if platform_version_lt(*a, *b) {
            -1int
        } else if *a == *b {
            0int
        } else {
            1int
        }),
{
    if a.major != b.major {
        if a.major < b.major { -1 } else { 1 }
    } else if a.minor != b.minor {
        if a.minor < b.minor { -1 } else { 1 }
    } else if a.patch != b.patch {
        if a.patch < b.patch { -1 } else { 1 }
    } else if a.build != b.build {
        if a.build < b.build { -1 } else { 1 }
    } else {
        0
    }
}

/// Three-way comparison of optional versions, as [`version_order`].
fn version_order_of(left: &Option<UtilityVersion>, right: &Option<UtilityVersion>) -> (r: i8)
    ensures
        r as int == version_order(opt_version_view(*left), opt_version_view(*right)),
{
    match (left, right) {
        (Some(UtilityVersion::Platform(a)), Some(UtilityVersion::Platform(b))) => platform_version_order(a, b),
        (Some(UtilityVersion::Edt(a)), Some(UtilityVersion::Edt(b))) => {
            let o = units_order(&a.parts, &b.parts);
            if o == -1 {
                -1
            } else if o == 0 {
                0
            } else {
                1
            }
        },
        (Some(_), Some(_)) => 0,
        (Some(_), None) => 1,
        (None, Some(_)) => -1,
        (None, None) => 0,
    }
}

/// Compares optional versions for picking the highest (see [`version_order`]).
pub fn compare_versions(left: &Option<UtilityVersion>, right: &Option<UtilityVersion>) -> (r: Ordering)
    ensures
        (r == Ordering::Less) == (version_order(opt_version_view(*left), opt_version_view(*right)) == -1),
        (r == Ordering::Equal) == (version_order(opt_version_view(*left), opt_version_view(*right)) == 0),
        (r == Ordering::Greater) == (version_order(opt_version_view(*left), opt_version_view(*right)) == 1),
{
    let o = version_order_of(left, right);
    if o < 0 {
        Ordering::Less
    } else if o == 0 {
        Ordering::Equal
    } else {
        Ordering::Greater
    }
}

/// Some window of `candidate` equals `required`, which is not empty.
pub open spec fn edt_version_matches_spec(required: Seq<u32>, candidate: Seq<u32>) -> bool {
    required.len() > 0 && exists|i: int|
        0 <= i && i + required.len() <= candidate.len() && #[trigger] candidate.subrange(
            i,
            i + required.len(),
        ) == required
}

/// Whether the EDT version contains the required numbers as a contiguous run.
pub fn edt_version_matches(required: &EdtVersion, candidate: &EdtVersion) -> (b: bool)
    ensures
        b == edt_version_matches_spec(required.parts@, candidate.parts@),
{
    let n = required.parts.len();
    if n == 0 {
        return false;
    }
    if candidate.parts.len() < n {
        return false;
    }
    let req = &required.parts;
    let cand = &candidate.parts;
    let mut i: usize = 0;
    let clen: usize = cand.len();
    let last: usize = clen - n;
    while i <= last
        invariant
            req@ == required.parts@,
            cand@ == candidate.parts@,
            n == req@.len(),
            n > 0,
            n <= cand@.len(),
            last == cand@.len() - n,
            clen == cand@.len(),
            i <= last + 1,
            forall|k: int| 0 <= k < i ==> #[trigger] cand@.subrange(k, k + n) != req@,
        decreases last + 1 - i,
    {
        let mut j: usize = 0;
        let mut same = true;
        while j < n
            invariant
                req@ == required.parts@,
                cand@ == candidate.parts@,
                n > 0,
                n == req@.len(),
                i <= last,
                last == cand@.len() - n,
                clen == cand@.len(),
                i + n <= cand@.len(),
                j <= n,
                same == (forall|m: int| 0 <= m < j ==> cand@[i + m] == req@[m]),
            decreases n - j,
        {
            assert(i + j < cand@.len());
            if cand[i + j] != req[j] {
                same = false;
            }
            j += 1;
        }
        if same {
            assert(cand@.subrange(i as int, i + n) =~= req@);
            return true;
        }
        assert(cand@.subrange(i as int, i + n) != req@) by {
            let m = choose|m: int| 0 <= m < n && cand@[i + m] != req@[m];
            assert(cand@.subrange(i as int, i + n)[m] == cand@[i + m]);
        }
        i += 1;
    }
    false
}

/// Resolution behavior for configured platform installation hints.
#[derive(Debug, Clone, Copy, PartialEq, Eq, Hash, Structural)]
pub enum PlatformResolutionPolicy {
    /// Do not enforce `tools.platform.version` for a configured platform path.
    Lenient,
    /// Enforce `tools.platform.version` inside a configured platform path boundary.
    Strict,
}

impl Default for PlatformResolutionPolicy {
    fn default() -> (r: Self)
        ensures
            r == PlatformResolutionPolicy::Lenient,
    {
        PlatformResolutionPolicy::Lenient
    }
}

/// Inputs used to construct a locator.
#[derive(Debug, Clone)]
pub struct LocatorOptions {
    /// Configured platform executable or installation boundary.
    pub platform_hint: Option<String>,
    /// Optional platform version prefix or exact build.
    pub platform_version: Option<PlatformVersionRequirement>,
    /// Whether a configured platform path enforces `platform_version`.
    pub platform_policy: PlatformResolutionPolicy,
    /// Configured EDT executable or installation hint.
    pub edt_hint: Option<String>,
    /// Optional EDT discovery version.
    pub edt_version: Option<EdtVersion>,
}

impl Default for LocatorOptions {
    fn default() -> (r: Self)
        ensures
            r.platform_hint is None,
            r.platform_version is None,
            r.platform_policy == PlatformResolutionPolicy::Lenient,
            r.edt_hint is None,
            r.edt_version is None,
    {
        LocatorOptions {
            platform_hint: None,
            platform_version: None,
            platform_policy: PlatformResolutionPolicy::Lenient,
            edt_hint: None,
            edt_version: None,
        }
    }
}

/// Typed origin of a resolved executable.
#[derive(Debug, Clone, Copy, PartialEq, Eq, Hash, Structural)]
pub enum ResolutionSource {
    /// The configured utility or installation hint.
    Explicit,
    /// An operating-system-specific default installation root.
    DefaultRoot,
    /// A directory captured from `PATH` when the locator was created.
    Path,
}

/// Resolved utility path together with parsed version information.
#[derive(Debug, Clone, PartialEq, Eq)]
pub struct UtilityLocation {
    /// Utility kind that was resolved.
    pub utility: UtilityType,
    /// Absolute path to the executable.
    pub path: String,
    /// Parsed version metadata if it could be derived from the path.
    pub version: Option<UtilityVersion>,
    /// Origin used to discover the executable.
    pub source: ResolutionSource,
    /// Canonical root shared by sibling executables from this installation.
    pub installation_root: String,
}

/// The plain values of a location: utility, path, version, source, root.
pub type LocationView = (UtilityType, Seq<char>, Option<VersionView>, ResolutionSource, Seq<char>);

pub open spec fn location_view(l: UtilityLocation) -> LocationView {
    (l.utility, l.path@, opt_version_view(l.version), l.source, l.installation_root@)
}

/// Failure to resolve a utility.
#[derive(Debug, Clone, PartialEq, Eq)]
pub enum LocatorError {
    NotFound(UtilityType),
    StrictBoundaryNotFound { utility: UtilityType, boundary: String },
    UnknownVersion { utility: UtilityType, path: String, required: PlatformVersionRequirement },
    VersionMismatch {
        utility: UtilityType,
        path: String,
        required: PlatformVersionRequirement,
        found: PlatformVersion,
    },
    MissingSibling { utility: UtilityType, installation_root: String },
}

/// The requirements an error carries name a build only together with a patch.
pub open spec fn locator_error_well_formed(e: LocatorError) -> bool {
    match e {
        LocatorError::UnknownVersion { required, .. } => requirement_well_formed(required),
        LocatorError::VersionMismatch { required, .. } => requirement_well_formed(required),
        _ => true,
    }
}

/// The message of an error.
pub open spec fn locator_error_text(e: LocatorError) -> Seq<char> {
    match e {
        LocatorError::NotFound(u) => "utility '"@ + executable_name_of(u) + "' was not found"@,
        LocatorError::StrictBoundaryNotFound { utility, boundary } => "utility '"@
            + executable_name_of(utility) + "' was not found inside strict platform boundary '"@
            + boundary@ + "'"@,
        LocatorError::UnknownVersion { utility, path, required } => "utility '"@ + executable_name_of(
            utility,
        ) + "' at '"@ + path@ + "' has unknown platform version; required "@ + requirement_text(
            required,
        ),
        LocatorError::VersionMismatch { utility, path, required, found } => "utility '"@
            + executable_name_of(utility) + "' at '"@ + path@ + "' has platform version "@
            + platform_version_text(found) + "; required "@ + requirement_text(required),
        LocatorError::MissingSibling { utility, installation_root } => "utility '"@
            + executable_name_of(utility) + "' is missing from pinned platform installation '"@
            + installation_root@ + "'"@,
    }
}

/// Appends the characters of `s`.
fn push_str(out: &mut Vec<char>, s: &str)
    ensures
        final(out)@ == old(out)@ + s@,
{
    let cs = chars_of(s);
    append_chars(out, cs.as_slice());
}

impl LocatorError {
    /// The error's message.
    pub fn message(&self) -> (m: String)
        requires
            locator_error_well_formed(*self),
        ensures
            m@ == locator_error_text(*self),
    {
        let mut out: Vec<char> = Vec::new();
        match self {
            LocatorError::NotFound(u) => {
                push_str(&mut out, "utility '");
                push_str(&mut out, u.executable_name());
                push_str(&mut out, "' was not found");
            },
            LocatorError::StrictBoundaryNotFound { utility, boundary } => {
                push_str(&mut out, "utility '");
                push_str(&mut out, utility.executable_name());
                push_str(&mut out, "' was not found inside strict platform boundary '");
                push_str(&mut out, boundary.as_str());
                push_str(&mut out, "'");
            },
            LocatorError::UnknownVersion { utility, path, required } => {
                push_str(&mut out, "utility '");
                push_str(&mut out, utility.executable_name());
                push_str(&mut out, "' at '");
                push_str(&mut out, path.as_str());
                push_str(&mut out, "' has unknown platform version; required ");
                let r = required.to_string();
                push_str(&mut out, r.as_str());
            },
            LocatorError::VersionMismatch { utility, path, required, found } => {
                push_str(&mut out, "utility '");
                push_str(&mut out, utility.executable_name());
                push_str(&mut out, "' at '");
                push_str(&mut out, path.as_str());
                push_str(&mut out, "' has platform version ");
                let f = found.to_string();
                push_str(&mut out, f.as_str());
                push_str(&mut out, "; required ");
                let r = required.to_string();
                push_str(&mut out, r.as_str());
            },
            LocatorError::MissingSibling { utility, installation_root } => {
                push_str(&mut out, "utility '");
                push_str(&mut out, utility.executable_name());
                push_str(&mut out, "' is missing from pinned platform installation '");
                push_str(&mut out, installation_root.as_str());
                push_str(&mut out, "'");
            },
        }
        assert(out@ =~= locator_error_text(*self));
        string_of(out.as_slice())
    }
}

/// The installation root of an executable: its directory, or the directory
/// above it when the executable sits in a `bin` or `1cedt` folder.
pub open spec fn installation_root_of(p: Seq<char>) -> Seq<char> {
    let dir = match parent(p) {
        Some(d) => d,
        None => p,
    };
    if file_name(dir) == Some("bin"@) || file_name(dir) == Some("1cedt"@) {
        match parent(dir) {
            Some(g) => g,
            None => dir,
        }
    } else {
        dir
    }
}

/// The version named by the installation root of an executable: four dotted
/// numbers for platform utilities, any numeric tokens for EDT.
pub open spec fn inferred_version(u: UtilityType, p: Seq<char>) -> Option<VersionView> {
    match file_name(installation_root_of(p)) {
        None => None,
        Some(t) => if u is EdtCli {
            if lenient_numbers(t).len() > 0 {
                Some(VersionView::Edt(lenient_numbers(t)))
            } else {
                None
            }
        } else {
            match strict_version_of(t) {
                Some(v) => Some(VersionView::Platform(v)),
                None => None,
            }
        },
    }
}

/// Whether a path component is exactly `expected`.
fn name_is(name: &Option<String>, expected: &str) -> (b: bool)
    ensures
        b == (match name {
            Some(n) => n@ == expected@,
            None => false,
        }),
{
    match name {
        Some(n) => {
            let a = chars_of(n.as_str());
            let e = chars_of(expected);
            crate::support::text::chars_eq(a.as_slice(), e.as_slice())
        },
        None => false,
    }
}

/// The installation root of an executable (see [`installation_root_of`]).
pub fn installation_root_for_executable(path: &str) -> (r: String)
    ensures
        r@ == installation_root_of(path@),
{
    let dir = match path_parent(path) {
        Some(d) => d,
        None => {
            let cs = chars_of(path);
            string_of(cs.as_slice())
        },
    };
    let name = path_file_name(dir.as_str());
    let is_utility_directory = name_is(&name, "bin") || name_is(&name, "1cedt");
    if is_utility_directory {
        match path_parent(dir.as_str()) {
            Some(g) => g,
            None => dir,
        }
    } else {
        dir
    }
}

/// Infers the utility version from the installation root's name.
pub fn infer_version(utility: UtilityType, path: &str) -> (r: Option<UtilityVersion>)
    ensures
        opt_version_view(r) == inferred_version(utility, path@),
{
    let root = installation_root_for_executable(path);
    let text = match path_file_name(root.as_str()) {
        Some(t) => t,
        None => return None,
    };
    match utility {
        UtilityType::EdtCli => match EdtVersion::parse_lenient(text.as_str()) {
            Some(v) => Some(UtilityVersion::Edt(v)),
            None => None,
        },
        _ => match PlatformVersion::parse_strict(text.as_str()) {
            Some(v) => Some(UtilityVersion::Platform(v)),
            None => None,
        },
    }
}

/// A path that may hold a utility executable, before it is checked on disk.
#[derive(Debug, Clone)]
pub struct Candidate {
    pub path: String,
    pub version: Option<UtilityVersion>,
    pub source: ResolutionSource,
}

/// The plain values of a candidate that decide the search: path and source.
pub type CandidateView = (Seq<char>, ResolutionSource);

pub open spec fn candidate_views(v: Seq<Candidate>) -> Seq<CandidateView> {
    v.map_values(|c: Candidate| (c.path@, c.source))
}

/// A candidate that exists as an executable, with its canonical path and installation root.
#[derive(Debug, Clone)]
pub struct CanonicalCandidate {
    pub path: String,
    pub version: Option<UtilityVersion>,
    pub source: ResolutionSource,
    pub installation_root: String,
}

/// The plain values of a canonical candidate: path, version, source, root.
pub type CanonicalView = (Seq<char>, Option<VersionView>, ResolutionSource, Seq<char>);

pub open spec fn canonical_view(c: CanonicalCandidate) -> CanonicalView {
    (c.path@, opt_version_view(c.version), c.source, c.installation_root@)
}

pub open spec fn canonical_views(v: Seq<CanonicalCandidate>) -> Seq<CanonicalView> {
    v.map_values(|c: CanonicalCandidate| canonical_view(c))
}

/// What the file system says of one candidate executable.
#[derive(Debug, Clone)]
pub struct ExecutableProbe {
    /// The candidate path as the search built it.
    pub path: String,
    /// For an executable file: its canonical path and the canonical path of
    /// its installation root; `None` when it is no executable file or a
    /// canonical path cannot be had.
    pub resolved: Option<(String, String)>,
}

/// What the file system says of a configured hint path.
#[derive(Debug, Clone)]
pub struct PathFacts {
    pub path: String,
    pub is_file: bool,
    pub is_dir: bool,
    /// Canonical form of the nearest existing ancestor-or-self, or the path itself.
    pub canonical: String,
}

/// The directory entries of a search root that are directories, in read order.
#[derive(Debug, Clone)]
pub struct DirListing {
    pub root: String,
    pub dirs: Vec<String>,
}

/// Everything a search reads from the file system.
#[derive(Debug, Clone)]
pub struct SearchFacts {
    pub paths: Vec<PathFacts>,
    pub listings: Vec<DirListing>,
    pub probes: Vec<ExecutableProbe>,
}

/// The canonical path and root recorded for `p`: the first probe of `p`.
pub open spec fn probe_of(probes: Seq<ExecutableProbe>, p: Seq<char>) -> Option<(Seq<char>, Seq<char>)>
    decreases probes.len(),
{
    if probes.len() == 0 {
        None
    } else if probes[0].path@ == p {
        match probes[0].resolved {
            Some((a, b)) => Some((a@, b@)),
            None => None,
        }
    } else {
        probe_of(probes.drop_first(), p)
    }
}

/// The facts recorded for `p`: the first entry for it.
pub open spec fn facts_of(paths: Seq<PathFacts>, p: Seq<char>) -> Option<PathFacts>
    decreases paths.len(),
{
    if paths.len() == 0 {
        None
    } else if paths[0].path@ == p {
        Some(paths[0])
    } else {
        facts_of(paths.drop_first(), p)
    }
}

/// The directories listed for `root`: the first listing of it, else none.
pub open spec fn listing_of(listings: Seq<DirListing>, root: Seq<char>) -> Seq<Seq<char>>
    decreases listings.len(),
{
    if listings.len() == 0 {
        Seq::empty()
    } else if listings[0].root@ == root {
        strings_view(listings[0].dirs@)
    } else {
        listing_of(listings.drop_first(), root)
    }
}

fn copy_string(s: &String) -> (r: String)
    ensures
        r@ == s@,
{
    s.clone()
}

/// The probe of `path`.
fn lookup_probe(probes: &Vec<ExecutableProbe>, path: &String) -> (r: Option<(String, String)>)
    ensures
        match r {
            Some((a, b)) => probe_of(probes@, path@) == Some((a@, b@)),
            None => probe_of(probes@, path@) is None,
        },
{
    let mut i: usize = 0;
    assert(probes@.skip(0) =~= probes@);
    while i < probes.len()
        invariant
            i <= probes@.len(),
            probe_of(probes@, path@) == probe_of(probes@.skip(i as int), path@),
        decreases probes@.len() - i,
    {
        assert(probes@.skip(i as int)[0] == probes@[i as int]);
        assert(probes@.skip(i as int).drop_first() =~= probes@.skip(i + 1));
        if probes[i].path == *path {
            return match &probes[i].resolved {
                Some((a, b)) => Some((copy_string(a), copy_string(b))),
                None => None,
            };
        }
        i += 1;
    }
    None
}

/// The facts of `path`: whether it is a file, a directory, and its canonical form.
fn lookup_facts(paths: &Vec<PathFacts>, path: &String) -> (r: (bool, bool, String))
    ensures
        match facts_of(paths@, path@) {
            Some(f) => r.0 == f.is_file && r.1 == f.is_dir && r.2@ == f.canonical@,
            None => !r.0 && !r.1 && r.2@ == path@,
        },
{
    let mut i: usize = 0;
    assert(paths@.skip(0) =~= paths@);
    while i < paths.len()
        invariant
            i <= paths@.len(),
            facts_of(paths@, path@) == facts_of(paths@.skip(i as int), path@),
        decreases paths@.len() - i,
    {
        assert(paths@.skip(i as int)[0] == paths@[i as int]);
        assert(paths@.skip(i as int).drop_first() =~= paths@.skip(i + 1));
        if paths[i].path == *path {
            return (paths[i].is_file, paths[i].is_dir, copy_string(&paths[i].canonical));
        }
        i += 1;
    }
    (false, false, copy_string(path))
}

/// The directories listed for `root`.
fn lookup_listing(listings: &Vec<DirListing>, root: &String) -> (r: Vec<String>)
    ensures
        strings_view(r@) == listing_of(listings@, root@),
{
    let mut i: usize = 0;
    assert(listings@.skip(0) =~= listings@);
    while i < listings.len()
        invariant
            i <= listings@.len(),
            listing_of(listings@, root@) == listing_of(listings@.skip(i as int), root@),
        decreases listings@.len() - i,
    {
        assert(listings@.skip(i as int)[0] == listings@[i as int]);
        assert(listings@.skip(i as int).drop_first() =~= listings@.skip(i + 1));
        if listings[i].root == *root {
            return copy_strings(&listings[i].dirs);
        }
        i += 1;
    }
    let out: Vec<String> = Vec::new();
    assert(strings_view(out@) =~= Seq::<Seq<char>>::empty());
    out
}

fn copy_strings(v: &Vec<String>) -> (r: Vec<String>)
    ensures
        strings_view(r@) == strings_view(v@),
{
    let mut out: Vec<String> = Vec::new();
    let mut i: usize = 0;
    while i < v.len()
        invariant
            i <= v@.len(),
            strings_view(out@) == strings_view(v@).take(i as int),
        decreases v@.len() - i,
    {
        let ghost before = strings_view(out@);
        out.push(copy_string(&v[i]));
        assert(strings_view(out@) =~= before.push(v@[i as int]@));
        assert(strings_view(v@).take(i + 1) =~= strings_view(v@).take(i as int).push(v@[i as int]@));
        i += 1;
    }
    assert(strings_view(v@).take(v@.len() as int) =~= strings_view(v@));
    out
}

/// The executable of utility `u` inside `dir`.
pub open spec fn exe_in(dir: Seq<char>, u: UtilityType) -> Seq<char> {
    join_path(dir, executable_name_of(u))
}

/// The executable of utility `u` inside `dir/sub`.
pub open spec fn exe_in_sub(dir: Seq<char>, sub: Seq<char>, u: UtilityType) -> Seq<char> {
    join_path(join_path(dir, sub), executable_name_of(u))
}

/// `root/bin/<exe>` then `root/<exe>`.
pub open spec fn direct_candidate_views(root: Seq<char>, u: UtilityType, source: ResolutionSource) -> Seq<
    CandidateView,
> {
    seq![(exe_in_sub(root, "bin"@, u), source), (exe_in(root, u), source)]
}

/// `<exe>` in each `PATH` directory.
pub open spec fn path_candidate_views(u: UtilityType, roots: Seq<Seq<char>>) -> Seq<CandidateView>
    decreases roots.len(),
{
    if roots.len() == 0 {
        Seq::empty()
    } else {
        path_candidate_views(u, roots.drop_last()).push((exe_in(roots.last(), u), ResolutionSource::Path))
    }
}

/// For each directory named by a strict platform version, `<dir>/<exe>` then `<dir>/bin/<exe>`.
pub open spec fn platform_dir_candidates(u: UtilityType, dirs: Seq<Seq<char>>, source: ResolutionSource) -> Seq<
    CandidateView,
>
    decreases dirs.len(),
{
    if dirs.len() == 0 {
        Seq::empty()
    } else {
        let prev = platform_dir_candidates(u, dirs.drop_last(), source);
        let d = dirs.last();
        match file_name(d) {
            Some(n) => if strict_version_of(n) is Some {
                prev + seq![(exe_in(d, u), source), (exe_in_sub(d, "bin"@, u), source)]
            } else {
                prev
            },
            None => prev,
        }
    }
}

/// For each directory, `<dir>/1cedt/<exe>` then `<dir>/<exe>`.
pub open spec fn edt_dir_candidates(u: UtilityType, dirs: Seq<Seq<char>>, source: ResolutionSource) -> Seq<
    CandidateView,
>
    decreases dirs.len(),
{
    if dirs.len() == 0 {
        Seq::empty()
    } else {
        edt_dir_candidates(u, dirs.drop_last(), source) + seq![
            (exe_in_sub(dirs.last(), "1cedt"@, u), source),
            (exe_in(dirs.last(), u), source),
        ]
    }
}

/// The versioned candidates under every root, root by root.
pub open spec fn root_candidates(
    u: UtilityType,
    roots: Seq<Seq<char>>,
    listings: Seq<DirListing>,
    source: ResolutionSource,
) -> Seq<CandidateView>
    decreases roots.len(),
{
    if roots.len() == 0 {
        Seq::empty()
    } else {
        let dirs = listing_of(listings, roots.last());
        root_candidates(u, roots.drop_last(), listings, source) + if u is EdtCli {
            edt_dir_candidates(u, dirs, source)
        } else {
            platform_dir_candidates(u, dirs, source)
        }
    }
}

/// A candidate at `path`, its version inferred from the path.
pub fn candidate_from_path(path: String, utility: UtilityType, source: ResolutionSource) -> (c: Candidate)
    ensures
        c.path@ == path@,
        c.source == source,
        opt_version_view(c.version) == inferred_version(utility, path@),
{
    let version = infer_version(utility, path.as_str());
    Candidate { path, version, source }
}

/// The executable of `utility` in `dir`.
fn exe_path(dir: &str, utility: UtilityType) -> (r: String)
    ensures
        r@ == exe_in(dir@, utility),
{
    join(dir, utility.executable_name())
}

/// The executable of `utility` in `dir/sub`.
fn exe_path_sub(dir: &str, sub: &str, utility: UtilityType) -> (r: String)
    ensures
        r@ == exe_in_sub(dir@, sub@, utility),
{
    let d = join(dir, sub);
    join(d.as_str(), utility.executable_name())
}

/// `root/bin/<exe>` then `root/<exe>`.
pub fn direct_candidates(root: &str, utility: UtilityType, source: ResolutionSource) -> (v: Vec<Candidate>)
    ensures
        candidate_views(v@) == direct_candidate_views(root@, utility, source),
{
    proof {
        reveal_strlit("bin");
    }
    let mut v: Vec<Candidate> = Vec::new();
    v.push(candidate_from_path(exe_path_sub(root, "bin", utility), utility, source));
    v.push(candidate_from_path(exe_path(root, utility), utility, source));
    assert(candidate_views(v@) =~= direct_candidate_views(root@, utility, source));
    v
}

/// `<exe>` in each `PATH` directory.
pub fn path_candidates(utility: UtilityType, roots: &Vec<String>) -> (v: Vec<Candidate>)
    ensures
        candidate_views(v@) == path_candidate_views(utility, strings_view(roots@)),
{
    let ghost rv = strings_view(roots@);
    let mut v: Vec<Candidate> = Vec::new();
    let mut i: usize = 0;
    while i < roots.len()
        invariant
            i <= roots@.len(),
            rv == strings_view(roots@),
            candidate_views(v@) == path_candidate_views(utility, rv.take(i as int)),
        decreases roots@.len() - i,
    {
        let ghost before = candidate_views(v@);
        assert(rv.take(i + 1).drop_last() =~= rv.take(i as int));
        assert(rv[i as int] == roots@[i as int]@);
        v.push(candidate_from_path(exe_path(roots[i].as_str(), utility), utility, ResolutionSource::Path));
        assert(candidate_views(v@) =~= before.push((exe_in(rv[i as int], utility), ResolutionSource::Path)));
        i += 1;
    }
    assert(rv.take(roots@.len() as int) =~= rv);
    v
}

/// Appends the versioned candidates of the directories of one root.
fn push_dir_candidates(
    out: &mut Vec<Candidate>,
    utility: UtilityType,
    dirs: &Vec<String>,
    source: ResolutionSource,
)
    ensures
        candidate_views(final(out)@) == candidate_views(old(out)@) + if utility is EdtCli {
            edt_dir_candidates(utility, strings_view(dirs@), source)
        } else {
            platform_dir_candidates(utility, strings_view(dirs@), source)
        },
{
    proof {
        reveal_strlit("bin");
        reveal_strlit("1cedt");
    }
    let ghost start = candidate_views(out@);
    let ghost dv = strings_view(dirs@);
    let mut i: usize = 0;
    assert(candidate_views(out@) =~= start + if utility is EdtCli {
        edt_dir_candidates(utility, dv.take(0), source)
    } else {
        platform_dir_candidates(utility, dv.take(0), source)
    });
    while i < dirs.len()
        invariant
            i <= dirs@.len(),
            dv == strings_view(dirs@),
            candidate_views(out@) == start + if utility is EdtCli {
                edt_dir_candidates(utility, dv.take(i as int), source)
            } else {
                platform_dir_candidates(utility, dv.take(i as int), source)
            },
        decreases dirs@.len() - i,
    {
        let d = &dirs[i];
        assert(dv[i as int] == d@);
        assert(dv.take(i + 1).drop_last() =~= dv.take(i as int));
        let ghost before = candidate_views(out@);
        if utility.is_platform() {
            match path_file_name(d.as_str()) {
                Some(n) => {
                    match PlatformVersion::parse_strict(n.as_str()) {
                        Some(v) => {
                            out.push(
                                Candidate {
                                    path: exe_path(d.as_str(), utility),
                                    version: Some(UtilityVersion::Platform(v)),
                                    source,
                                },
                            );
                            out.push(
                                Candidate {
                                    path: exe_path_sub(d.as_str(), "bin", utility),
                                    version: Some(UtilityVersion::Platform(v)),
                                    source,
                                },
                            );
                            assert(candidate_views(out@) =~= before + seq![
                                (exe_in(d@, utility), source),
                                (exe_in_sub(d@, "bin"@, utility), source),
                            ]);
                        },
                        None => {},
                    }
                },
                None => {},
            }
        } else {
            let version = match path_file_name(d.as_str()) {
                Some(n) => match EdtVersion::parse_lenient(n.as_str()) {
                    Some(v) => Some(UtilityVersion::Edt(v)),
                    None => None,
                },
                None => None,
            };
            let second = match &version {
                Some(UtilityVersion::Edt(v)) => Some(UtilityVersion::Edt(EdtVersion { parts: v.parts.clone() })),
                _ => None,
            };
            out.push(
                Candidate { path: exe_path_sub(d.as_str(), "1cedt", utility), version, source },
            );
            out.push(Candidate { path: exe_path(d.as_str(), utility), version: second, source });
            assert(candidate_views(out@) =~= before + seq![
                (exe_in_sub(d@, "1cedt"@, utility), source),
                (exe_in(d@, utility), source),
            ]);
        }
        i += 1;
    }
    assert(dv.take(dirs@.len() as int) =~= dv);
}

/// The versioned candidates under every root, root by root.
pub fn candidates_any_version(
    utility: UtilityType,
    roots: &Vec<String>,
    listings: &Vec<DirListing>,
    source: ResolutionSource,
) -> (v: Vec<Candidate>)
    ensures
        candidate_views(v@) == root_candidates(utility, strings_view(roots@), listings@, source),
{
    let ghost rv = strings_view(roots@);
    let mut v: Vec<Candidate> = Vec::new();
    let mut i: usize = 0;
    assert(candidate_views(v@) =~= Seq::<CandidateView>::empty());
    while i < roots.len()
        invariant
            i <= roots@.len(),
            rv == strings_view(roots@),
            candidate_views(v@) == root_candidates(utility, rv.take(i as int), listings@, source),
        decreases roots@.len() - i,
    {
        assert(rv.take(i + 1).drop_last() =~= rv.take(i as int));
        assert(rv[i as int] == roots@[i as int]@);
        let dirs = lookup_listing(listings, &roots[i]);
        push_dir_candidates(&mut v, utility, &dirs, source);
        i += 1;
    }
    assert(rv.take(roots@.len() as int) =~= rv);
    v
}

/// How a file hint names a sibling executable.
#[derive(Debug, Clone, Copy, PartialEq, Eq, Structural)]
pub enum FileHintSiblingResolution {
    /// Beside the hint as written.
    Lexical,
    /// Beside the hint's canonical path.
    CanonicalInstallation,
}

/// The candidates named directly by a hint: for an executable file, itself
/// (canonical) when it is the wanted utility, else the wanted utility beside
/// it; for a directory, `bin/<exe>` then `<exe>` in it.
pub open spec fn explicit_direct_views(
    hint: Seq<char>,
    u: UtilityType,
    mode: FileHintSiblingResolution,
    paths: Seq<PathFacts>,
) -> Seq<CandidateView> {
    match facts_of(paths, hint) {
        Some(f) => if f.is_file {
            if file_name(hint) == Some(executable_name_of(u)) {
                seq![(f.canonical@, ResolutionSource::Explicit)]
            } else {
                let base = if mode == FileHintSiblingResolution::Lexical {
                    hint
                } else {
                    f.canonical@
                };
                match parent(base) {
                    Some(d) => seq![(exe_in(d, u), ResolutionSource::Explicit)],
                    None => Seq::empty(),
                }
            }
        } else if f.is_dir {
            direct_candidate_views(hint, u, ResolutionSource::Explicit)
        } else {
            Seq::empty()
        },
        None => Seq::empty(),
    }
}

/// The candidates named directly by a hint (see [`explicit_direct_views`]).
pub fn explicit_direct_candidates(
    hint: &String,
    utility: UtilityType,
    sibling_resolution: FileHintSiblingResolution,
    paths: &Vec<PathFacts>,
) -> (v: Vec<Candidate>)
    ensures
        candidate_views(v@) == explicit_direct_views(hint@, utility, sibling_resolution, paths@),
{
    let (is_file, is_dir, canonical_hint) = lookup_facts(paths, hint);
    let mut v: Vec<Candidate> = Vec::new();
    if is_file {
        let name = path_file_name(hint.as_str());
        let matches = name_is(&name, utility.executable_name());
        let path = if matches {
            canonical_hint
        } else {
            let base = match sibling_resolution {
                FileHintSiblingResolution::Lexical => copy_string(hint),
                FileHintSiblingResolution::CanonicalInstallation => canonical_hint,
            };
            match path_parent(base.as_str()) {
                Some(d) => exe_path(d.as_str(), utility),
                None => {
                    assert(candidate_views(v@) =~= Seq::<CandidateView>::empty());
                    return v;
                },
            }
        };
        v.push(candidate_from_path(path, utility, ResolutionSource::Explicit));
        assert(candidate_views(v@) =~= explicit_direct_views(hint@, utility, sibling_resolution, paths@));
        return v;
    }
    if is_dir {
        return direct_candidates(hint.as_str(), utility, ResolutionSource::Explicit);
    }
    assert(candidate_views(v@) =~= Seq::<CandidateView>::empty());
    v
}

/// The canonical form of a hint, or the hint itself.
pub open spec fn canonical_boundary_of(paths: Seq<PathFacts>, hint: Seq<char>) -> Seq<char> {
    match facts_of(paths, hint) {
        Some(f) => f.canonical@,
        None => hint,
    }
}

/// The strict boundary of a platform hint: the installation root for an
/// executable hint or a `bin` directory, else the canonical hint.
pub open spec fn strict_boundary_of(paths: Seq<PathFacts>, hint: Seq<char>) -> Seq<char> {
    let c = canonical_boundary_of(paths, hint);
    let is_file = match facts_of(paths, hint) {
        Some(f) => f.is_file,
        None => false,
    };
    if is_file || file_name(c) == Some("bin"@) {
        installation_root_of(c)
    } else {
        c
    }
}

/// The strict boundary of a platform hint (see [`strict_boundary_of`]).
pub fn strict_candidate_boundary(hint: &String, paths: &Vec<PathFacts>) -> (r: String)
    ensures
        r@ == strict_boundary_of(paths@, hint@),
{
    let (is_file, _, canonical) = lookup_facts(paths, hint);
    let name = path_file_name(canonical.as_str());
    if is_file || name_is(&name, "bin") {
        installation_root_for_executable(canonical.as_str())
    } else {
        canonical
    }
}

/// A candidate as it exists on disk: its probe's canonical path and root,
/// unless it is no executable or lies outside `boundary`; its version is
/// inferred again from the canonical path.
pub open spec fn canonical_of(
    u: UtilityType,
    c: CandidateView,
    probes: Seq<ExecutableProbe>,
    boundary: Option<Seq<char>>,
) -> Option<CanonicalView> {
    match probe_of(probes, c.0) {
        None => None,
        Some((cp, root)) => if (boundary matches Some(b) && (!path_starts_with(cp, b)
            || !path_starts_with(root, b))) {
            None
        } else {
            Some((cp, inferred_version(u, cp), c.1, root))
        },
    }
}

/// The candidates that exist on disk, in order.
pub open spec fn canonical_all(
    u: UtilityType,
    cs: Seq<CandidateView>,
    probes: Seq<ExecutableProbe>,
    boundary: Option<Seq<char>>,
) -> Seq<CanonicalView>
    decreases cs.len(),
{
    if cs.len() == 0 {
        Seq::empty()
    } else {
        let prev = canonical_all(u, cs.drop_last(), probes, boundary);
        match canonical_of(u, cs.last(), probes, boundary) {
            Some(c) => prev.push(c),
            None => prev,
        }
    }
}

fn opt_str(o: &Option<String>) -> (r: Option<&str>)
    ensures
        match o {
            Some(s) => r matches Some(t) && t@ == s@,
            None => r is None,
        },
{
    match o {
        Some(s) => Some(s.as_str()),
        None => None,
    }
}

/// The candidates that exist on disk (see [`canonical_all`]).
pub fn canonical_candidates(
    utility: UtilityType,
    candidates: &Vec<Candidate>,
    boundary: Option<&str>,
    probes: &Vec<ExecutableProbe>,
) -> (v: Vec<CanonicalCandidate>)
    ensures
        canonical_views(v@) == canonical_all(
            utility,
            candidate_views(candidates@),
            probes@,
            opt_str_view(boundary),
        ),
{
    let ghost cv = candidate_views(candidates@);
    let ghost b = opt_str_view(boundary);
    let mut v: Vec<CanonicalCandidate> = Vec::new();
    let mut i: usize = 0;
    assert(canonical_views(v@) =~= Seq::<CanonicalView>::empty());
    while i < candidates.len()
        invariant
            i <= candidates@.len(),
            cv == candidate_views(candidates@),
            b == opt_str_view(boundary),
            canonical_views(v@) == canonical_all(utility, cv.take(i as int), probes@, b),
        decreases candidates@.len() - i,
    {
        let c = &candidates[i];
        assert(cv[i as int] == (c.path@, c.source));
        assert(cv.take(i + 1).drop_last() =~= cv.take(i as int));
        let ghost before = canonical_views(v@);
        match lookup_probe(probes, &c.path) {
            Some((path, root)) => {
                let outside = match boundary {
                    Some(bd) => !starts_with_path(path.as_str(), bd) || !starts_with_path(
                        root.as_str(),
                        bd,
                    ),
                    None => false,
                };
                if !outside {
                    let version = infer_version(utility, path.as_str());
                    v.push(
                        CanonicalCandidate {
                            path,
                            version,
                            source: c.source,
                            installation_root: root,
                        },
                    );
                    assert(canonical_views(v@) =~= before.push(canonical_view(v@.last())));
                }
            },
            None => {},
        }
        i += 1;
    }
    assert(cv.take(candidates@.len() as int) =~= cv);
    v
}

/// A candidate's version passes a platform requirement: without one every
/// candidate does; with one only a platform version that satisfies it.
pub open spec fn platform_eligible(req: Option<PlatformVersionRequirement>, v: Option<VersionView>) -> bool {
    match req {
        None => true,
        Some(r) => match v {
            Some(VersionView::Platform(pv)) => requirement_matches(r, pv),
            _ => false,
        },
    }
}

/// The candidates whose version passes `req`, in order.
pub open spec fn eligible_only(cs: Seq<CanonicalView>, req: Option<PlatformVersionRequirement>) -> Seq<
    CanonicalView,
>
    decreases cs.len(),
{
    if cs.len() == 0 {
        Seq::empty()
    } else {
        let prev = eligible_only(cs.drop_last(), req);
        if platform_eligible(req, cs.last().1) {
            prev.push(cs.last())
        } else {
            prev
        }
    }
}

/// Index of the highest version, the last of equals (`Iterator::max_by`).
pub open spec fn last_max(cs: Seq<CanonicalView>) -> Option<int>
    decreases cs.len(),
{
    if cs.len() == 0 {
        None
    } else {
        match last_max(cs.drop_last()) {
            None => Some(cs.len() - 1),
            Some(b) => if version_order(cs[b].1, cs.last().1) == 1 {
                Some(b)
            } else {
                Some(cs.len() - 1)
            },
        }
    }
}

pub proof fn lemma_last_max_in_range(cs: Seq<CanonicalView>)
    ensures
        last_max(cs) matches Some(b) ==> 0 <= b < cs.len(),
        cs.len() > 0 <==> last_max(cs) is Some,
    decreases cs.len(),
{
    if cs.len() > 0 {
        lemma_last_max_in_range(cs.drop_last());
        if let Some(b) = last_max(cs.drop_last()) {
            assert(cs[b] == cs.drop_last()[b]);
        }
    }
}

/// The location of the candidate chosen among `cs`: the highest version that
/// passes `req`, the last of equals.
pub open spec fn chosen_location(
    u: UtilityType,
    cs: Seq<CanonicalView>,
    req: Option<PlatformVersionRequirement>,
) -> Option<LocationView> {
    let f = eligible_only(cs, req);
    match last_max(f) {
        Some(b) => Some((u, f[b].0, f[b].1, f[b].2, f[b].3)),
        None => None,
    }
}

fn clone_version(v: &Option<UtilityVersion>) -> (r: Option<UtilityVersion>)
    ensures
        opt_version_view(r) == opt_version_view(*v),
{
    match v {
        Some(UtilityVersion::Platform(p)) => Some(UtilityVersion::Platform(*p)),
        Some(UtilityVersion::Edt(e)) => {
            let mut parts: Vec<u32> = Vec::new();
            let mut i: usize = 0;
            while i < e.parts.len()
                invariant
                    i <= e.parts@.len(),
                    parts@ == e.parts@.take(i as int),
                decreases e.parts@.len() - i,
            {
                parts.push(e.parts[i]);
                assert(e.parts@.take(i + 1) =~= e.parts@.take(i as int).push(e.parts@[i as int]));
                i += 1;
            }
            assert(e.parts@.take(e.parts@.len() as int) =~= e.parts@);
            Some(UtilityVersion::Edt(EdtVersion { parts }))
        },
        None => None,
    }
}

/// Whether a candidate's version passes a platform requirement.
fn is_platform_eligible(req: Option<PlatformVersionRequirement>, v: &Option<UtilityVersion>) -> (b: bool)
    ensures
        b == platform_eligible(req, opt_version_view(*v)),
{
    match req {
        None => true,
        Some(r) => match v {
            Some(UtilityVersion::Platform(pv)) => r.matches(pv),
            _ => false,
        },
    }
}

/// The highest-version candidate that passes `required`, the last of equals.
pub fn choose_candidate(
    utility: UtilityType,
    candidates: Vec<CanonicalCandidate>,
    required: Option<PlatformVersionRequirement>,
) -> (r: Option<UtilityLocation>)
    ensures
        match r {
            Some(l) => chosen_location(utility, canonical_views(candidates@), required) == Some(
                location_view(l),
            ),
            None => chosen_location(utility, canonical_views(candidates@), required) is None,
        },
{
    let ghost cv = canonical_views(candidates@);
    let mut best: Option<usize> = None;
    let mut chosen: Vec<usize> = Vec::new();
    let mut i: usize = 0;
    assert(eligible_only(cv.take(0), required) =~= Seq::<CanonicalView>::empty());
    while i < candidates.len()
        invariant
            i <= candidates@.len(),
            cv == canonical_views(candidates@),
            chosen@.len() == eligible_only(cv.take(i as int), required).len(),
            forall|k: int|
                0 <= k < chosen@.len() ==> #[trigger] chosen@[k] < i && cv[chosen@[k] as int]
                    == eligible_only(cv.take(i as int), required)[k],
            match best {
                Some(b) => last_max(eligible_only(cv.take(i as int), required)) == Some(b as int)
                    && b < chosen@.len(),
                None => last_max(eligible_only(cv.take(i as int), required)) is None,
            },
        decreases candidates@.len() - i,
    {
        let ghost f0 = eligible_only(cv.take(i as int), required);
        assert(cv.take(i + 1).drop_last() =~= cv.take(i as int));
        assert(cv.take(i + 1).last() == cv[i as int]);
        assert(cv[i as int] == canonical_view(candidates@[i as int]));
        if is_platform_eligible(required, &candidates[i].version) {
            let ghost f1 = f0.push(cv[i as int]);
            assert(f1.drop_last() =~= f0);
            let replace = match best {
                None => true,
                Some(b) => {
                    let ci = chosen[b];
                    assert(cv[ci as int] == f0[b as int]);
                    assert(f1[b as int] == f0[b as int]);
                    version_order_of(&candidates[ci].version, &candidates[i].version) != 1
                },
            };
            chosen.push(i);
            if replace {
                best = Some(chosen.len() - 1);
            }
            proof {
                lemma_last_max_in_range(f0);
            }
        }
        i += 1;
    }
    assert(cv.take(candidates@.len() as int) =~= cv);
    match best {
        Some(b) => {
            let ci = chosen[b];
            let c = &candidates[ci];
            Some(
                UtilityLocation {
                    utility,
                    path: copy_string(&c.path),
                    version: clone_version(&c.version),
                    source: c.source,
                    installation_root: copy_string(&c.installation_root),
                },
            )
        },
        None => None,
    }
}

/// The candidate chosen among `candidates` as they exist on disk inside `boundary`.
pub fn select_candidate(
    utility: UtilityType,
    candidates: &Vec<Candidate>,
    required: Option<PlatformVersionRequirement>,
    boundary: Option<&str>,
    probes: &Vec<ExecutableProbe>,
) -> (r: Option<UtilityLocation>)
    ensures
        match r {
            Some(l) => chosen_location(
                utility,
                canonical_all(utility, candidate_views(candidates@), probes@, opt_str_view(boundary)),
                required,
            ) == Some(location_view(l)),
            None => chosen_location(
                utility,
                canonical_all(utility, candidate_views(candidates@), probes@, opt_str_view(boundary)),
                required,
            ) is None,
        },
{
    let cs = canonical_candidates(utility, candidates, boundary, probes);
    choose_candidate(utility, cs, required)
}

/// The candidates whose installation root is `root`, in order.
pub open spec fn same_root_only(cs: Seq<CanonicalView>, root: Seq<char>) -> Seq<CanonicalView>
    decreases cs.len(),
{
    if cs.len() == 0 {
        Seq::empty()
    } else {
        let prev = same_root_only(cs.drop_last(), root);
        if path_eq(cs.last().3, root) {
            prev.push(cs.last())
        } else {
            prev
        }
    }
}

/// Keeps the candidates whose installation root satisfies `keep`, given as a flag per entry.
fn keep_flagged(cs: Vec<CanonicalCandidate>, flags: &Vec<bool>) -> (out: Vec<CanonicalCandidate>)
    requires
        flags@.len() == cs@.len(),
    ensures
        canonical_views(out@) == flagged(canonical_views(cs@), flags@),
{
    let ghost cv = canonical_views(cs@);
    let mut out: Vec<CanonicalCandidate> = Vec::new();
    let mut rest = cs;
    let mut i: usize = 0;
    let ghost all = rest@;
    assert(canonical_views(out@) =~= flagged(cv.take(0), flags@.take(0)));
    while i < flags.len()
        invariant
            i <= flags@.len(),
            flags@.len() == cv.len(),
            cv == canonical_views(all),
            rest@ == all.skip(i as int),
            canonical_views(out@) == flagged(cv.take(i as int), flags@.take(i as int)),
        decreases flags@.len() - i,
    {
        let c = rest.remove(0);
        assert(c == all[i as int]);
        assert(rest@ =~= all.skip(i + 1));
        assert(cv.take(i + 1).drop_last() =~= cv.take(i as int));
        assert(flags@.take(i + 1).drop_last() =~= flags@.take(i as int));
        let ghost before = canonical_views(out@);
        if flags[i] {
            out.push(c);
            assert(canonical_views(out@) =~= before.push(cv[i as int]));
        }
        i += 1;
    }
    assert(cv.take(flags@.len() as int) =~= cv);
    assert(flags@.take(flags@.len() as int) =~= flags@);
    out
}

/// The entries of `cs` whose flag is set.
pub open spec fn flagged(cs: Seq<CanonicalView>, flags: Seq<bool>) -> Seq<CanonicalView>
    decreases cs.len(),
{
    if cs.len() == 0 || flags.len() == 0 {
        Seq::empty()
    } else {
        let prev = flagged(cs.drop_last(), flags.drop_last());
        if flags.last() {
            prev.push(cs.last())
        } else {
            prev
        }
    }
}

proof fn lemma_flagged_same_root(cs: Seq<CanonicalView>, flags: Seq<bool>, root: Seq<char>)
    requires
        flags.len() == cs.len(),
        forall|k: int| 0 <= k < cs.len() ==> #[trigger] flags[k] == path_eq(cs[k].3, root),
    ensures
        flagged(cs, flags) == same_root_only(cs, root),
    decreases cs.len(),
{
    if cs.len() > 0 {
        let c2 = cs.drop_last();
        let f2 = flags.drop_last();
        assert forall|k: int| 0 <= k < c2.len() implies #[trigger] f2[k] == path_eq(c2[k].3, root) by {
            assert(f2[k] == flags[k]);
            assert(c2[k] == cs[k]);
        }
        lemma_flagged_same_root(c2, f2, root);
        assert(flags[cs.len() - 1] == path_eq(cs[cs.len() - 1].3, root));
    }
}

/// The candidate chosen among those whose canonical installation root is the pinned root.
pub fn select_pinned_candidate(
    utility: UtilityType,
    candidates: &Vec<Candidate>,
    required: Option<PlatformVersionRequirement>,
    installation_root: &str,
    probes: &Vec<ExecutableProbe>,
) -> (r: Option<UtilityLocation>)
    ensures
        match r {
            Some(l) => chosen_location(
                utility,
                same_root_only(
                    canonical_all(utility, candidate_views(candidates@), probes@, Some(installation_root@)),
                    installation_root@,
                ),
                required,
            ) == Some(location_view(l)),
            None => chosen_location(
                utility,
                same_root_only(
                    canonical_all(utility, candidate_views(candidates@), probes@, Some(installation_root@)),
                    installation_root@,
                ),
                required,
            ) is None,
        },
{
    let cs = canonical_candidates(utility, candidates, Some(installation_root), probes);
    let ghost cv = canonical_views(cs@);
    let mut flags: Vec<bool> = Vec::new();
    let mut i: usize = 0;
    while i < cs.len()
        invariant
            i <= cs@.len(),
            cv == canonical_views(cs@),
            flags@.len() == i,
            forall|k: int| 0 <= k < i ==> #[trigger] flags@[k] == path_eq(cv[k].3, installation_root@),
        decreases cs@.len() - i,
    {
        assert(cv[i as int].3 == cs@[i as int].installation_root@);
        flags.push(paths_equal(cs[i].installation_root.as_str(), installation_root));
        i += 1;
    }
    proof {
        lemma_flagged_same_root(cv, flags@, installation_root@);
    }
    let kept = keep_flagged(cs, &flags);
    choose_candidate(utility, kept, required)
}

/// A candidate passes an EDT requirement: without one every candidate does;
/// `PATH` candidates always do; others only with an EDT version that contains
/// the required numbers.
pub open spec fn edt_eligible(required: Option<Seq<u32>>, c: CanonicalView) -> bool {
    match required {
        None => true,
        Some(req) => if c.2 == ResolutionSource::Path {
            true
        } else {
            match c.1 {
                Some(VersionView::Edt(v)) => edt_version_matches_spec(req, v),
                _ => false,
            }
        },
    }
}

/// The candidates that pass an EDT requirement, in order.
pub open spec fn edt_eligible_only(cs: Seq<CanonicalView>, required: Option<Seq<u32>>) -> Seq<CanonicalView>
    decreases cs.len(),
{
    if cs.len() == 0 {
        Seq::empty()
    } else {
        let prev = edt_eligible_only(cs.drop_last(), required);
        if edt_eligible(required, cs.last()) {
            prev.push(cs.last())
        } else {
            prev
        }
    }
}

proof fn lemma_flagged_edt(cs: Seq<CanonicalView>, flags: Seq<bool>, required: Option<Seq<u32>>)
    requires
        flags.len() == cs.len(),
        forall|k: int| 0 <= k < cs.len() ==> #[trigger] flags[k] == edt_eligible(required, cs[k]),
    ensures
        flagged(cs, flags) == edt_eligible_only(cs, required),
    decreases cs.len(),
{
    if cs.len() > 0 {
        let c2 = cs.drop_last();
        let f2 = flags.drop_last();
        assert forall|k: int| 0 <= k < c2.len() implies #[trigger] f2[k] == edt_eligible(required, c2[k]) by {
            assert(f2[k] == flags[k]);
            assert(c2[k] == cs[k]);
        }
        lemma_flagged_edt(c2, f2, required);
        assert(flags[cs.len() - 1] == edt_eligible(required, cs[cs.len() - 1]));
    }
}

pub open spec fn opt_edt_view(v: Option<&EdtVersion>) -> Option<Seq<u32>> {
    match v {
        Some(e) => Some(e.parts@),
        None => None,
    }
}

/// The EDT candidate chosen among those that pass `required`.
pub fn select_edt_candidate(
    candidates: &Vec<Candidate>,
    utility: UtilityType,
    required: Option<&EdtVersion>,
    probes: &Vec<ExecutableProbe>,
) -> (r: Option<UtilityLocation>)
    ensures
        match r {
            Some(l) => chosen_location(
                utility,
                edt_eligible_only(
                    canonical_all(utility, candidate_views(candidates@), probes@, None),
                    opt_edt_view(required),
                ),
                None,
            ) == Some(location_view(l)),
            None => chosen_location(
                utility,
                edt_eligible_only(
                    canonical_all(utility, candidate_views(candidates@), probes@, None),
                    opt_edt_view(required),
                ),
                None,
            ) is None,
        },
{
    let cs = canonical_candidates(utility, candidates, None, probes);
    let ghost cv = canonical_views(cs@);
    let ghost req = opt_edt_view(required);
    let mut flags: Vec<bool> = Vec::new();
    let mut i: usize = 0;
    while i < cs.len()
        invariant
            i <= cs@.len(),
            cv == canonical_views(cs@),
            req == opt_edt_view(required),
            flags@.len() == i,
            forall|k: int| 0 <= k < i ==> #[trigger] flags@[k] == edt_eligible(req, cv[k]),
        decreases cs@.len() - i,
    {
        let c = &cs[i];
        assert(cv[i as int] == canonical_view(*c));
        let ok = match required {
            None => true,
            Some(rq) => match c.source {
                ResolutionSource::Path => true,
                _ => match &c.version {
                    Some(UtilityVersion::Edt(v)) => edt_version_matches(rq, v),
                    _ => false,
                },
            },
        };
        flags.push(ok);
        i += 1;
    }
    proof {
        lemma_flagged_edt(cv, flags@, req);
    }
    let kept = keep_flagged(cs, &flags);
    choose_candidate(utility, kept, None)
}

/// The candidates with a platform version that misses `req`, with that version.
pub open spec fn mismatches(cs: Seq<CanonicalView>, req: PlatformVersionRequirement) -> Seq<
    (CanonicalView, PlatformVersion),
>
    decreases cs.len(),
{
    if cs.len() == 0 {
        Seq::empty()
    } else {
        let prev = mismatches(cs.drop_last(), req);
        match cs.last().1 {
            Some(VersionView::Platform(f)) => if !requirement_matches(req, f) {
                prev.push((cs.last(), f))
            } else {
                prev
            },
            _ => prev,
        }
    }
}

/// `l` ranks above `r`: a higher version, or the same version at a later path.
pub open spec fn mismatch_gt(l: (CanonicalView, PlatformVersion), r: (CanonicalView, PlatformVersion)) -> bool {
    platform_version_lt(r.1, l.1) || (l.1 == r.1 && path_lt(r.0.0, l.0.0))
}

/// Index of the highest-ranked mismatch, the last of equals.
pub open spec fn last_max_mismatch(ms: Seq<(CanonicalView, PlatformVersion)>) -> Option<int>
    decreases ms.len(),
{
    if ms.len() == 0 {
        None
    } else {
        match last_max_mismatch(ms.drop_last()) {
            None => Some(ms.len() - 1),
            Some(b) => if mismatch_gt(ms[b], ms.last()) {
                Some(b)
            } else {
                Some(ms.len() - 1)
            },
        }
    }
}

pub proof fn lemma_last_max_mismatch_in_range(ms: Seq<(CanonicalView, PlatformVersion)>)
    ensures
        last_max_mismatch(ms) matches Some(b) ==> 0 <= b < ms.len(),
        ms.len() > 0 <==> last_max_mismatch(ms) is Some,
    decreases ms.len(),
{
    if ms.len() > 0 {
        lemma_last_max_mismatch_in_range(ms.drop_last());
    }
}

/// Index of the first candidate without a version.
pub open spec fn first_unknown(cs: Seq<CanonicalView>) -> Option<int>
    decreases cs.len(),
{
    if cs.len() == 0 {
        None
    } else if cs[0].1 is None {
        Some(0)
    } else {
        match first_unknown(cs.drop_first()) {
            Some(k) => Some(k + 1),
            None => None,
        }
    }
}

/// The boundary a strict failure names: the boundary, else the canonical
/// hint, else empty.
pub open spec fn reported_boundary(
    hint: Option<Seq<char>>,
    boundary: Option<Seq<char>>,
    paths: Seq<PathFacts>,
) -> Seq<char> {
    match boundary {
        Some(b) => b,
        None => match hint {
            Some(h) => canonical_boundary_of(paths, h),
            None => Seq::empty(),
        },
    }
}

/// `e` explains a strict search that found nothing usable among `cs`: the
/// highest-ranked version mismatch if there is one, else the first candidate
/// of unknown version, when a version is required; else the boundary.
pub open spec fn strict_error_is(
    u: UtilityType,
    hint: Option<Seq<char>>,
    cs: Seq<CanonicalView>,
    req: Option<PlatformVersionRequirement>,
    boundary: Option<Seq<char>>,
    paths: Seq<PathFacts>,
    e: LocatorError,
) -> bool {
    let not_found = e matches LocatorError::StrictBoundaryNotFound { utility, boundary: b } && utility
        == u && b@ == reported_boundary(hint, boundary, paths);
    match req {
        Some(r) => {
            let ms = mismatches(cs, r);
            match last_max_mismatch(ms) {
                Some(k) => e matches LocatorError::VersionMismatch { utility, path, required, found }
                    && utility == u && path@ == ms[k].0.0 && required == r && found == ms[k].1,
                None => match first_unknown(cs) {
                    Some(k) => e matches LocatorError::UnknownVersion { utility, path, required }
                        && utility == u && path@ == cs[k].0 && required == r,
                    None => not_found,
                },
            }
        },
        None => not_found,
    }
}

/// Why a strict search found nothing usable (see [`strict_error_is`]).
pub fn strict_resolution_error(
    utility: UtilityType,
    hint: Option<&String>,
    candidates: &Vec<Candidate>,
    required: Option<PlatformVersionRequirement>,
    boundary: Option<&str>,
    facts: &SearchFacts,
) -> (e: LocatorError)
    ensures
        strict_error_is(
            utility,
            match hint {
                Some(h) => Some(h@),
                None => None,
            },
            canonical_all(utility, candidate_views(candidates@), facts.probes@, opt_str_view(boundary)),
            required,
            opt_str_view(boundary),
            facts.paths@,
            e,
        ),
{
    let cs = canonical_candidates(utility, candidates, boundary, &facts.probes);
    let ghost cv = canonical_views(cs@);
    if let Some(req) = required {
        let ghost ms = mismatches(cv, req);
        let mut best: Option<usize> = None;
        let mut best_version = PlatformVersion { major: 0, minor: 0, patch: 0, build: 0 };
        let mut idx: Vec<usize> = Vec::new();
        let mut i: usize = 0;
        assert(mismatches(cv.take(0), req) =~= Seq::<(CanonicalView, PlatformVersion)>::empty());
        while i < cs.len()
            invariant
                i <= cs@.len(),
                cv == canonical_views(cs@),
                idx@.len() == mismatches(cv.take(i as int), req).len(),
                forall|k: int|
                    0 <= k < idx@.len() ==> #[trigger] idx@[k] < i && cv[idx@[k] as int]
                        == mismatches(cv.take(i as int), req)[k].0,
                match best {
                    Some(b) => last_max_mismatch(mismatches(cv.take(i as int), req)) == Some(b as int)
                        && b < idx@.len() && best_version == mismatches(cv.take(i as int), req)[b as int].1,
                    None => last_max_mismatch(mismatches(cv.take(i as int), req)) is None,
                },
            decreases cs@.len() - i,
        {
            let ghost m0 = mismatches(cv.take(i as int), req);
            assert(cv.take(i + 1).drop_last() =~= cv.take(i as int));
            assert(cv.take(i + 1).last() == cv[i as int]);
            assert(cv[i as int] == canonical_view(cs@[i as int]));
            if let Some(UtilityVersion::Platform(found)) = &cs[i].version {
                if !req.matches(found) {
                    let ghost m1 = m0.push((cv[i as int], *found));
                    assert(m1.drop_last() =~= m0);
                    let replace = match best {
                        None => true,
                        Some(b) => {
                            let bi = idx[b];
                            let o = platform_version_order(&best_version, found);
                            assert(m1[b as int] == m0[b as int]);
                            if o == 1 {
                                false
                            } else if o == 0 {
                                let ka = path_key_of(cs[bi].path.as_str());
                                let kb = path_key_of(cs[i].path.as_str());
                                keys_order(&ka, &kb) != 1
                            } else {
                                true
                            }
                        },
                    };
                    idx.push(i);
                    if replace {
                        best = Some(idx.len() - 1);
                        best_version = *found;
                    }
                    proof {
                        lemma_last_max_mismatch_in_range(m0);
                    }
                }
            }
            i += 1;
        }
        assert(cv.take(cs@.len() as int) =~= cv);
        if let Some(b) = best {
            let bi = idx[b];
            return LocatorError::VersionMismatch {
                utility,
                path: copy_string(&cs[bi].path),
                required: req,
                found: best_version,
            };
        }
        let mut k: usize = 0;
        assert(cv.skip(0) =~= cv);
        while k < cs.len()
            invariant
                k <= cs@.len(),
                cv == canonical_views(cs@),
                last_max_mismatch(mismatches(cv, req)) is None,
                required == Some(req),
                cv == canonical_all(utility, candidate_views(candidates@), facts.probes@, opt_str_view(boundary)),
                first_unknown(cv) == match first_unknown(cv.skip(k as int)) {
                    Some(j) => Some(j + k),
                    None => None,
                },
            decreases cs@.len() - k,
        {
            assert(cv.skip(k as int)[0] == cv[k as int]);
            assert(cv.skip(k as int).drop_first() =~= cv.skip(k + 1));
            assert(cv[k as int] == canonical_view(cs@[k as int]));
            if cs[k].version.is_none() {
                assert(first_unknown(cv.skip(k as int)) == Some(0int));
                return LocatorError::UnknownVersion { utility, path: copy_string(&cs[k].path), required: req };
            }
            k += 1;
        }
        assert(cv.skip(k as int) =~= Seq::<CanonicalView>::empty());
    }
    let reported = match boundary {
        Some(b) => {
            let cs = chars_of(b);
            string_of(cs.as_slice())
        },
        None => match hint {
            Some(h) => {
                let (_, _, c) = lookup_facts(&facts.paths, h);
                c
            },
            None => String::new(),
        },
    };
    LocatorError::StrictBoundaryNotFound { utility, boundary: reported }
}

/// The installation the first strict platform resolution settled on.
#[derive(Debug, Clone)]
pub struct PinnedPlatformInstallation {
    pub root: String,
    pub source: ResolutionSource,
}

/// A remembered resolution, keyed by utility and requirement text.
#[derive(Debug, Clone)]
pub struct CacheEntry {
    pub utility: UtilityType,
    pub requirement: Option<String>,
    pub location: UtilityLocation,
}

pub open spec fn opt_string_view(o: Option<String>) -> Option<Seq<char>> {
    match o {
        Some(s) => Some(s@),
        None => None,
    }
}

/// The location remembered for a key: the first entry with it.
pub open spec fn cached_in(cache: Seq<CacheEntry>, u: UtilityType, req: Option<Seq<char>>) -> Option<
    LocationView,
>
    decreases cache.len(),
{
    if cache.len() == 0 {
        None
    } else if cache[0].utility == u && opt_string_view(cache[0].requirement) == req {
        Some(location_view(cache[0].location))
    } else {
        cached_in(cache.drop_first(), u, req)
    }
}

/// Numbers joined with `.`.
pub open spec fn dotted_text(parts: Seq<u32>) -> Seq<char>
    decreases parts.len(),
{
    if parts.len() == 0 {
        Seq::empty()
    } else if parts.len() == 1 {
        decimal(parts[0] as nat)
    } else {
        dotted_text(parts.drop_last()) + "."@ + decimal(parts.last() as nat)
    }
}

/// Whether a file hint names a sibling lexically (lenient) or canonically (strict).
pub open spec fn sibling_mode(policy: PlatformResolutionPolicy) -> FileHintSiblingResolution {
    if policy == PlatformResolutionPolicy::Lenient {
        FileHintSiblingResolution::Lexical
    } else {
        FileHintSiblingResolution::CanonicalInstallation
    }
}

/// The hint is a directory according to the facts.
pub open spec fn fact_is_dir(paths: Seq<PathFacts>, p: Seq<char>) -> bool {
    match facts_of(paths, p) {
        Some(f) => f.is_dir,
        None => false,
    }
}

/// The versioned candidates under a hint that is a directory.
pub open spec fn versioned_hint_views(
    u: UtilityType,
    hint: Seq<char>,
    facts: SearchFacts,
) -> Seq<CandidateView> {
    if fact_is_dir(facts.paths@, hint) {
        root_candidates(u, seq![hint], facts.listings@, ResolutionSource::Explicit)
    } else {
        Seq::empty()
    }
}

/// `r` is `Ok` with the location `o` when there is one, else `Err(e)` with `bad(e)`.
pub open spec fn picked(o: Option<LocationView>, r: Result<UtilityLocation, LocatorError>) -> bool {
    match o {
        Some(l) => r matches Ok(loc) && location_view(loc) == l,
        None => r is Err,
    }
}

/// The EDT location chosen among `cs` as they exist on disk.
pub open spec fn edt_pick(
    u: UtilityType,
    cs: Seq<CandidateView>,
    probes: Seq<ExecutableProbe>,
    req: Option<Seq<u32>>,
) -> Option<LocationView> {
    chosen_location(u, edt_eligible_only(canonical_all(u, cs, probes, None), req), None)
}

/// Stateful utility locator with per-instance cache.
pub struct Locator {
    platform_hint: Option<String>,
    platform_version: Option<PlatformVersionRequirement>,
    platform_policy: PlatformResolutionPolicy,
    edt_hint: Option<String>,
    edt_version: Option<EdtVersion>,
    cache: Vec<CacheEntry>,
    platform_roots: Vec<String>,
    edt_roots: Vec<String>,
    path_roots: Vec<String>,
    pinned_platform: Option<PinnedPlatformInstallation>,
}

/// Default platform installation roots (Linux layout).
pub fn default_platform_roots() -> (v: Vec<String>)
    ensures
        strings_view(v@) == seq!["/opt/1cv8/x86_64"@, "/opt/1cv8/i386"@, "/usr/local/1cv8"@],
{
    let mut v: Vec<String> = Vec::new();
    v.push(String::from_str("/opt/1cv8/x86_64"));
    v.push(String::from_str("/opt/1cv8/i386"));
    v.push(String::from_str("/usr/local/1cv8"));
    assert(strings_view(v@) =~= seq!["/opt/1cv8/x86_64"@, "/opt/1cv8/i386"@, "/usr/local/1cv8"@]);
    v
}

/// Default EDT component roots (Linux layout).
pub fn default_edt_roots() -> (v: Vec<String>)
    ensures
        strings_view(v@) == seq!["/opt/1C/1CE/components"@],
{
    let mut v: Vec<String> = Vec::new();
    v.push(String::from_str("/opt/1C/1CE/components"));
    assert(strings_view(v@) =~= seq!["/opt/1C/1CE/components"@]);
    v
}

/// `PATH` directories made absolute: absolute ones stay, relative ones
/// (the empty one included) are joined onto the current directory.
pub open spec fn normalized_roots(roots: Seq<Seq<char>>, current: Seq<char>) -> Seq<Seq<char>>
    decreases roots.len(),
{
    if roots.len() == 0 {
        Seq::empty()
    } else {
        let r = roots.last();
        normalized_roots(roots.drop_last(), current).push(
            if is_abs(r) {
                r
            } else {
                join_path(current, r)
            },
        )
    }
}

/// `PATH` directories made absolute against the current directory.
pub fn normalize_path_roots(roots: Vec<String>, current_dir: &str) -> (v: Vec<String>)
    ensures
        strings_view(v@) == normalized_roots(strings_view(roots@), current_dir@),
{
    let ghost rv = strings_view(roots@);
    let mut v: Vec<String> = Vec::new();
    let mut i: usize = 0;
    while i < roots.len()
        invariant
            i <= roots@.len(),
            rv == strings_view(roots@),
            strings_view(v@) == normalized_roots(rv.take(i as int), current_dir@),
        decreases roots@.len() - i,
    {
        let r = &roots[i];
        assert(rv[i as int] == r@);
        assert(rv.take(i + 1).drop_last() =~= rv.take(i as int));
        let ghost before = strings_view(v@);
        let item = if crate::support::path::is_absolute(r.as_str()) {
            copy_string(r)
        } else {
            join(current_dir, r.as_str())
        };
        v.push(item);
        assert(strings_view(v@) =~= before.push(v@.last()@));
        i += 1;
    }
    assert(rv.take(roots@.len() as int) =~= rv);
    v
}

/// Whether two locations are the same.
fn same_location(a: &UtilityLocation, b: &UtilityLocation) -> (r: bool)
    ensures
        r == (location_view(*a) == location_view(*b)),
{
    if a.utility != b.utility || a.source != b.source {
        return false;
    }
    if !(a.path == b.path) || !(a.installation_root == b.installation_root) {
        return false;
    }
    match (&a.version, &b.version) {
        (Some(UtilityVersion::Platform(x)), Some(UtilityVersion::Platform(y))) => x == y,
        (Some(UtilityVersion::Edt(x)), Some(UtilityVersion::Edt(y))) => {
            let same = units_order(&x.parts, &y.parts) == 0;
            if same {
                assert(opt_version_view(a.version) == opt_version_view(b.version));
            }
            same
        },
        (None, None) => true,
        _ => false,
    }
}

fn copy_location(l: &UtilityLocation) -> (r: UtilityLocation)
    ensures
        location_view(r) == location_view(*l),
{
    UtilityLocation {
        utility: l.utility,
        path: copy_string(&l.path),
        version: clone_version(&l.version),
        source: l.source,
        installation_root: copy_string(&l.installation_root),
    }
}

fn copy_opt_string(o: &Option<String>) -> (r: Option<String>)
    ensures
        opt_string_view(r) == opt_string_view(*o),
{
    match o {
        Some(s) => Some(copy_string(s)),
        None => None,
    }
}

impl Locator {
    pub closed spec fn spec_platform_hint(&self) -> Option<Seq<char>> {
        opt_string_view(self.platform_hint)
    }

    pub closed spec fn spec_platform_version(&self) -> Option<PlatformVersionRequirement> {
        self.platform_version
    }

    pub closed spec fn spec_policy(&self) -> PlatformResolutionPolicy {
        self.platform_policy
    }

    pub closed spec fn spec_edt_hint(&self) -> Option<Seq<char>> {
        opt_string_view(self.edt_hint)
    }

    pub closed spec fn spec_edt_version(&self) -> Option<Seq<u32>> {
        match self.edt_version {
            Some(e) => Some(e.parts@),
            None => None,
        }
    }

    pub closed spec fn spec_platform_roots(&self) -> Seq<Seq<char>> {
        strings_view(self.platform_roots@)
    }

    pub closed spec fn spec_edt_roots(&self) -> Seq<Seq<char>> {
        strings_view(self.edt_roots@)
    }

    pub closed spec fn spec_path_roots(&self) -> Seq<Seq<char>> {
        strings_view(self.path_roots@)
    }

    /// The pinned installation root and its source, if any.
    pub closed spec fn spec_pinned(&self) -> Option<(Seq<char>, ResolutionSource)> {
        match self.pinned_platform {
            Some(p) => Some((p.root@, p.source)),
            None => None,
        }
    }

    /// The location remembered for a utility and requirement text.
    pub closed spec fn spec_cached(&self, u: UtilityType, req: Option<Seq<char>>) -> Option<LocationView> {
        cached_in(self.cache@, u, req)
    }

    /// Under a configured path in strict mode, a platform location is
    /// remembered only once its installation is pinned; once an installation
    /// is pinned in strict mode, every remembered platform location lies in it;
    /// without a configured path nothing is pinned.
    pub closed spec fn spec_pin_consistent(&self) -> bool {
        &&& self.platform_hint is None ==> self.pinned_platform is None
        &&& (self.platform_policy == PlatformResolutionPolicy::Strict && self.platform_hint is Some
            && self.pinned_platform is None) ==> forall|k: int|
            0 <= k < self.cache@.len() ==> (#[trigger] self.cache@[k]).location.utility is EdtCli
        &&& (self.platform_policy == PlatformResolutionPolicy::Strict && self.pinned_platform is Some) ==> forall|k: int|
            0 <= k < self.cache@.len() ==> (!((#[trigger] self.cache@[k]).location.utility is EdtCli) ==> path_eq(
                self.cache@[k].location.installation_root@,
                self.pinned_platform->0.root@,
            ))
    }

    /// The configured platform requirement names a build only with a patch,
    /// and no platform location is remembered under an unpinned strict path.
    pub open spec fn wf(&self) -> bool {
        &&& self.spec_platform_version() matches Some(r) ==> requirement_well_formed(r)
        &&& self.spec_pin_consistent()
    }

    /// The platform requirement in force: none for a lenient configured path.
    pub open spec fn spec_effective_requirement(&self) -> Option<PlatformVersionRequirement> {
        if self.spec_platform_hint() is Some && self.spec_policy() == PlatformResolutionPolicy::Lenient {
            None
        } else {
            self.spec_platform_version()
        }
    }

    /// The requirement text that keys the cache for `u`.
    pub open spec fn spec_requirement_text(&self, u: UtilityType) -> Option<Seq<char>> {
        if u is EdtCli {
            match self.spec_edt_version() {
                Some(p) => Some(dotted_text(p)),
                None => None,
            }
        } else {
            match self.spec_effective_requirement() {
                Some(r) => Some(requirement_text(r)),
                None => None,
            }
        }
    }

    /// A locator with the given options, default roots and the given `PATH` roots.
    pub fn new(options: LocatorOptions, path_roots: Vec<String>) -> (l: Self)
        ensures
            l.spec_platform_hint() == opt_string_view(options.platform_hint),
            l.spec_platform_version() == options.platform_version,
            l.spec_policy() == options.platform_policy,
            l.spec_edt_hint() == opt_string_view(options.edt_hint),
            l.spec_edt_version() == (match options.edt_version {
                Some(e) => Some(e.parts@),
                None => None,
            }),
            l.spec_platform_roots() == seq!["/opt/1cv8/x86_64"@, "/opt/1cv8/i386"@, "/usr/local/1cv8"@],
            l.spec_edt_roots() == seq!["/opt/1C/1CE/components"@],
            l.spec_path_roots() == strings_view(path_roots@),
            l.spec_pinned() is None,
            l.spec_pin_consistent(),
            forall|u: UtilityType, r: Option<Seq<char>>| #[trigger] l.spec_cached(u, r) is None,
    {
        Self {
            platform_hint: options.platform_hint,
            platform_version: options.platform_version,
            platform_policy: options.platform_policy,
            edt_hint: options.edt_hint,
            edt_version: options.edt_version,
            cache: Vec::new(),
            platform_roots: default_platform_roots(),
            edt_roots: default_edt_roots(),
            path_roots,
            pinned_platform: None,
        }
    }

    /// A locator with explicit search roots.
    pub fn with_search_roots(
        platform_hint: Option<String>,
        platform_version: Option<PlatformVersionRequirement>,
        platform_policy: PlatformResolutionPolicy,
        edt_hint: Option<String>,
        edt_version: Option<EdtVersion>,
        platform_roots: Vec<String>,
        edt_roots: Vec<String>,
        path_roots: Vec<String>,
    ) -> (l: Self)
        ensures
            l.spec_platform_hint() == opt_string_view(platform_hint),
            l.spec_platform_version() == platform_version,
            l.spec_policy() == platform_policy,
            l.spec_edt_hint() == opt_string_view(edt_hint),
            l.spec_edt_version() == (match edt_version {
                Some(e) => Some(e.parts@),
                None => None,
            }),
            l.spec_platform_roots() == strings_view(platform_roots@),
            l.spec_edt_roots() == strings_view(edt_roots@),
            l.spec_path_roots() == strings_view(path_roots@),
            l.spec_pinned() is None,
            l.spec_pin_consistent(),
            forall|u: UtilityType, r: Option<Seq<char>>| #[trigger] l.spec_cached(u, r) is None,
    {
        Self {
            platform_hint,
            platform_version,
            platform_policy,
            edt_hint,
            edt_version,
            cache: Vec::new(),
            platform_roots,
            edt_roots,
            path_roots,
            pinned_platform: None,
        }
    }

    /// A lenient locator over the given roots that does not search `PATH`.
    pub fn with_roots(
        platform_hint: Option<String>,
        platform_version: Option<PlatformVersionRequirement>,
        edt_hint: Option<String>,
        edt_version: Option<EdtVersion>,
        platform_roots: Vec<String>,
        edt_roots: Vec<String>,
    ) -> (l: Self)
        ensures
            l.spec_platform_hint() == opt_string_view(platform_hint),
            l.spec_platform_version() == platform_version,
            l.spec_policy() == PlatformResolutionPolicy::Lenient,
            l.spec_edt_hint() == opt_string_view(edt_hint),
            l.spec_edt_version() == (match edt_version {
                Some(e) => Some(e.parts@),
                None => None,
            }),
            l.spec_platform_roots() == strings_view(platform_roots@),
            l.spec_edt_roots() == strings_view(edt_roots@),
            l.spec_path_roots() == Seq::<Seq<char>>::empty(),
            l.spec_pinned() is None,
            l.spec_pin_consistent(),
            forall|u: UtilityType, r: Option<Seq<char>>| #[trigger] l.spec_cached(u, r) is None,
    {
        let no_path: Vec<String> = Vec::new();
        assert(strings_view(no_path@) =~= Seq::<Seq<char>>::empty());
        Self::with_search_roots(
            platform_hint,
            platform_version,
            PlatformResolutionPolicy::Lenient,
            edt_hint,
            edt_version,
            platform_roots,
            edt_roots,
            no_path,
        )
    }

    /// The platform requirement in force: none for a lenient configured path.
    pub fn effective_platform_version_requirement(&self) -> (r: Option<PlatformVersionRequirement>)
        ensures
            r == self.spec_effective_requirement(),
    {
        if self.platform_hint.is_some() && self.platform_policy == PlatformResolutionPolicy::Lenient {
            None
        } else {
            self.platform_version
        }
    }

    /// The requirement text that keys the cache for `utility`.
    pub fn version_requirement_string(&self, utility: UtilityType) -> (r: Option<String>)
        requires
            self.wf(),
        ensures
            opt_string_view(r) == self.spec_requirement_text(utility),
    {
        if utility.is_platform() {
            match self.effective_platform_version_requirement() {
                Some(q) => Some(q.to_string()),
                None => None,
            }
        } else {
            match &self.edt_version {
                Some(e) => {
                    let mut out: Vec<char> = Vec::new();
                    let mut i: usize = 0;
                    while i < e.parts.len()
                        invariant
                            i <= e.parts@.len(),
                            out@ == dotted_text(e.parts@.take(i as int)),
                        decreases e.parts@.len() - i,
                    {
                        assert(e.parts@.take(i + 1).drop_last() =~= e.parts@.take(i as int));
                        let ghost before = out@;
                        push_number(&mut out, e.parts[i], i > 0);
                        if i == 0 {
                            assert(out@ =~= dotted_text(e.parts@.take(1)));
                        } else {
                            assert(out@ =~= dotted_text(e.parts@.take(i + 1)));
                        }
                        i += 1;
                    }
                    assert(e.parts@.take(e.parts@.len() as int) =~= e.parts@);
                    Some(string_of(out.as_slice()))
                },
                None => None,
            }
        }
    }

    /// The cache index of a key.
    fn cache_position(&self, utility: UtilityType, req: &Option<String>) -> (r: Option<usize>)
        ensures
            match r {
                Some(i) => i < self.cache@.len() && cached_in(self.cache@, utility, opt_string_view(*req))
                    == Some(location_view(self.cache@[i as int].location)),
                None => cached_in(self.cache@, utility, opt_string_view(*req)) is None,
            },
    {
        let mut i: usize = 0;
        assert(self.cache@.skip(0) =~= self.cache@);
        while i < self.cache.len()
            invariant
                i <= self.cache@.len(),
                cached_in(self.cache@, utility, opt_string_view(*req)) == cached_in(
                    self.cache@.skip(i as int),
                    utility,
                    opt_string_view(*req),
                ),
            decreases self.cache@.len() - i,
        {
            assert(self.cache@.skip(i as int)[0] == self.cache@[i as int]);
            assert(self.cache@.skip(i as int).drop_first() =~= self.cache@.skip(i + 1));
            let e = &self.cache[i];
            let same_req = match (&e.requirement, req) {
                (Some(a), Some(b)) => *a == *b,
                (None, None) => true,
                _ => false,
            };
            if e.utility == utility && same_req {
                return Some(i);
            }
            i += 1;
        }
        None
    }

    /// The location that a remembered path with its source gives when it is
    /// checked again as the only candidate under the current rules: inside
    /// the pinned installation, inside the strict boundary, or freely.
    pub open spec fn spec_revalidated(
        &self,
        u: UtilityType,
        path: Seq<char>,
        source: ResolutionSource,
        facts: SearchFacts,
    ) -> Option<LocationView> {
        let cands = seq![(path, source)];
        let req = self.spec_effective_requirement();
        if u is EdtCli {
            chosen_location(u, edt_eligible_only(canonical_all(u, cands, facts.probes@, None), None), None)
        } else if self.spec_policy() == PlatformResolutionPolicy::Strict {
            match self.spec_pinned() {
                Some(p) => chosen_location(u, same_root_only(canonical_all(u, cands, facts.probes@, Some(p.0)), p.0), req),
                None => chosen_location(
                    u,
                    canonical_all(
                        u,
                        cands,
                        facts.probes@,
                        match self.spec_platform_hint() {
                            Some(h) => Some(strict_boundary_of(facts.paths@, h)),
                            None => None,
                        },
                    ),
                    req,
                ),
            }
        } else {
            chosen_location(u, canonical_all(u, cands, facts.probes@, None), req)
        }
    }

    /// Whether a remembered location still holds: the cached path, checked
    /// again as a candidate under the current rules, gives the same location.
    pub fn revalidate_cached_location(
        &self,
        utility: UtilityType,
        cached: &UtilityLocation,
        facts: &SearchFacts,
    ) -> (r: Option<UtilityLocation>)
        ensures
            r matches Some(l) ==> location_view(l) == location_view(*cached) && l.utility == utility,
            r matches Some(l) ==> (!(utility is EdtCli) ==> platform_eligible(
                self.spec_effective_requirement(),
                opt_version_view(l.version),
            )),
            (cached.utility != utility || (!(utility is EdtCli) && self.spec_platform_hint() is Some
                && self.spec_policy() == PlatformResolutionPolicy::Lenient)) ==> r is None,
            r is Some <==> (cached.utility == utility && !(!(utility is EdtCli) && self.spec_platform_hint() is Some
                && self.spec_policy() == PlatformResolutionPolicy::Lenient) && self.spec_revalidated(
                utility,
                cached.path@,
                cached.source,
                *facts,
            ) == Some(location_view(*cached))),
    {
        if cached.utility != utility {
            return None;
        }
        if utility.is_platform() && self.platform_hint.is_some() && self.platform_policy
            == PlatformResolutionPolicy::Lenient {
            return None;
        }
        let mut candidates: Vec<Candidate> = Vec::new();
        candidates.push(
            Candidate {
                path: copy_string(&cached.path),
                version: clone_version(&cached.version),
                source: cached.source,
            },
        );
        assert(candidate_views(candidates@) =~= seq![(cached.path@, cached.source)]);
        let required = self.effective_platform_version_requirement();
        let current = if utility.is_platform() {
            match self.platform_policy {
                PlatformResolutionPolicy::Strict => match &self.pinned_platform {
                    Some(pinned) => select_pinned_candidate(
                        utility,
                        &candidates,
                        required,
                        pinned.root.as_str(),
                        &facts.probes,
                    ),
                    None => {
                        let boundary = match &self.platform_hint {
                            Some(h) => Some(strict_candidate_boundary(h, &facts.paths)),
                            None => None,
                        };
                        let b = opt_str(&boundary);
                        select_candidate(utility, &candidates, required, b, &facts.probes)
                    },
                },
                PlatformResolutionPolicy::Lenient => select_candidate(
                    utility,
                    &candidates,
                    required,
                    None,
                    &facts.probes,
                ),
            }
        } else {
            select_edt_candidate(&candidates, utility, None, &facts.probes)
        };
        match current {
            Some(c) => {
                if same_location(&c, cached) {
                    assert(c.utility == utility) by {
                        lemma_chosen_utility_any(utility);
                    }
                    proof {
                        if !(utility is EdtCli) {
                            let pinned_root = match self.spec_pinned() {
                                Some(pr) => pr.0,
                                None => Seq::<char>::empty(),
                            };
                            let cs = if self.spec_policy() == PlatformResolutionPolicy::Strict && self.spec_pinned() is Some {
                                same_root_only(
                                    canonical_all(utility, candidate_views(candidates@), facts.probes@, Some(pinned_root)),
                                    pinned_root,
                                )
                            } else if self.spec_policy() == PlatformResolutionPolicy::Strict {
                                canonical_all(
                                    utility,
                                    candidate_views(candidates@),
                                    facts.probes@,
                                    match self.spec_platform_hint() {
                                        Some(h) => Some(strict_boundary_of(facts.paths@, h)),
                                        None => None,
                                    },
                                )
                            } else {
                                canonical_all(utility, candidate_views(candidates@), facts.probes@, None)
                            };
                            law_chosen_meets_requirement(utility, cs, required);
                        }
                    }
                    Some(c)
                } else {
                    None
                }
            },
            None => None,
        }
    }

    /// Pins the installation of a strict platform resolution from a configured path.
    fn pin_platform(&mut self, location: &UtilityLocation)
        ensures
            final(self).spec_pinned() == (if old(self).spec_policy() == PlatformResolutionPolicy::Strict
                && old(self).spec_platform_hint() is Some {
                Some((location.installation_root@, location.source))
            } else {
                old(self).spec_pinned()
            }),
            final(self).spec_platform_hint() == old(self).spec_platform_hint(),
            final(self).spec_platform_version() == old(self).spec_platform_version(),
            final(self).spec_policy() == old(self).spec_policy(),
            final(self).spec_edt_hint() == old(self).spec_edt_hint(),
            final(self).spec_edt_version() == old(self).spec_edt_version(),
            final(self).spec_platform_roots() == old(self).spec_platform_roots(),
            final(self).spec_edt_roots() == old(self).spec_edt_roots(),
            final(self).spec_path_roots() == old(self).spec_path_roots(),
            final(self).cache@ == old(self).cache@,
    {
        if self.platform_policy != PlatformResolutionPolicy::Strict || self.platform_hint.is_none() {
            return;
        }
        self.pinned_platform = Some(
            PinnedPlatformInstallation {
                root: copy_string(&location.installation_root),
                source: location.source,
            },
        );
    }
}

impl Locator {
    /// The candidates a platform search considers under a configured path:
    /// those named directly by the hint, then the versioned ones under it.
    pub open spec fn spec_explicit_platform(&self, u: UtilityType, h: Seq<char>, facts: SearchFacts) -> Seq<
        CandidateView,
    > {
        explicit_direct_views(h, u, sibling_mode(self.spec_policy()), facts.paths@) + versioned_hint_views(
            u,
            h,
            facts,
        )
    }

    /// The boundary of a strict platform search under a configured path.
    pub open spec fn spec_strict_boundary(&self, h: Seq<char>, facts: SearchFacts) -> Option<Seq<char>> {
        if self.spec_policy() == PlatformResolutionPolicy::Strict {
            Some(strict_boundary_of(facts.paths@, h))
        } else {
            None
        }
    }

    /// The candidates a platform search considers without a configured path:
    /// versioned ones under the default roots, then `PATH`.
    pub open spec fn spec_default_platform(&self, u: UtilityType, facts: SearchFacts) -> Seq<CandidateView> {
        root_candidates(u, self.spec_platform_roots(), facts.listings@, ResolutionSource::DefaultRoot)
            + path_candidate_views(u, self.spec_path_roots())
    }

    /// The candidates an EDT search considers: the hint's own and versioned
    /// ones, then the default roots and `PATH`.
    pub open spec fn spec_edt_candidates(&self, u: UtilityType, facts: SearchFacts) -> Seq<CandidateView> {
        (match self.spec_edt_hint() {
            Some(h) => explicit_direct_views(h, u, FileHintSiblingResolution::Lexical, facts.paths@)
                + versioned_hint_views(u, h, facts),
            None => Seq::empty(),
        }) + root_candidates(u, self.spec_edt_roots(), facts.listings@, ResolutionSource::DefaultRoot)
            + path_candidate_views(u, self.spec_path_roots())
    }

    /// `r` is what a fresh platform search gives: inside a pinned strict
    /// installation, its sibling or `MissingSibling`; under a configured
    /// path, the best explicit candidate or the strict error / `NotFound`;
    /// otherwise the best candidate of the default roots and `PATH` or `NotFound`.
    pub open spec fn platform_outcome(
        &self,
        u: UtilityType,
        facts: SearchFacts,
        r: Result<UtilityLocation, LocatorError>,
    ) -> bool {
        let req = self.spec_effective_requirement();
        let probes = facts.probes@;
        if self.spec_policy() == PlatformResolutionPolicy::Strict && self.spec_pinned() is Some {
            let (root, src) = self.spec_pinned()->0;
            &&& picked(
                chosen_location(
                    u,
                    same_root_only(canonical_all(u, direct_candidate_views(root, u, src), probes, Some(root)), root),
                    req,
                ),
                r,
            )
            &&& (r matches Err(e) ==> e matches LocatorError::MissingSibling { utility, installation_root }
                && utility == u && installation_root@ == root)
        } else if self.spec_platform_hint() is Some {
            let h = self.spec_platform_hint()->0;
            let cs = canonical_all(u, self.spec_explicit_platform(u, h, facts), probes, self.spec_strict_boundary(h, facts));
            &&& picked(chosen_location(u, cs, req), r)
            &&& (r matches Err(e) ==> if self.spec_policy() == PlatformResolutionPolicy::Strict {
                strict_error_is(u, Some(h), cs, req, self.spec_strict_boundary(h, facts), facts.paths@, e)
            } else {
                e == LocatorError::NotFound(u)
            })
        } else {
            &&& picked(chosen_location(u, canonical_all(u, self.spec_default_platform(u, facts), probes, None), req), r)
            &&& (r matches Err(e) ==> e == LocatorError::NotFound(u))
        }
    }

    /// `r` is what an EDT search gives: the hint's own candidates first, then
    /// the versioned ones under it, then the default roots and `PATH`.
    pub open spec fn edt_outcome(&self, u: UtilityType, facts: SearchFacts, r: Result<UtilityLocation, LocatorError>) -> bool {
        let probes = facts.probes@;
        let req = self.spec_edt_version();
        let direct = match self.spec_edt_hint() {
            Some(h) => explicit_direct_views(h, u, FileHintSiblingResolution::Lexical, facts.paths@),
            None => Seq::empty(),
        };
        let versioned = match self.spec_edt_hint() {
            Some(h) => versioned_hint_views(u, h, facts),
            None => Seq::empty(),
        };
        let defaults = root_candidates(u, self.spec_edt_roots(), facts.listings@, ResolutionSource::DefaultRoot)
            + path_candidate_views(u, self.spec_path_roots());
        match edt_pick(u, direct, probes, None) {
            Some(l) => picked(Some(l), r),
            None => match edt_pick(u, versioned, probes, req) {
                Some(l) => picked(Some(l), r),
                None => picked(edt_pick(u, defaults, probes, req), r) && (r matches Err(e) ==> e
                    == LocatorError::NotFound(u)),
            },
        }
    }

    /// Errors of a platform search carry only well-formed requirements.
    proof fn lemma_platform_error_well_formed(&self, u: UtilityType, facts: SearchFacts, r: Result<UtilityLocation, LocatorError>)
        requires
            self.wf(),
            self.platform_outcome(u, facts, r),
        ensures
            r matches Err(e) ==> locator_error_well_formed(e),
    {
    }

    /// The versioned candidates under a hint that is a directory.
    fn versioned_hint_candidates(utility: UtilityType, hint: &String, facts: &SearchFacts) -> (v: Vec<Candidate>)
        ensures
            candidate_views(v@) == versioned_hint_views(utility, hint@, *facts),
    {
        let (_, is_dir, _) = lookup_facts(&facts.paths, hint);
        if is_dir {
            let mut roots: Vec<String> = Vec::new();
            roots.push(copy_string(hint));
            assert(strings_view(roots@) =~= seq![hint@]);
            candidates_any_version(utility, &roots, &facts.listings, ResolutionSource::Explicit)
        } else {
            let v: Vec<Candidate> = Vec::new();
            assert(candidate_views(v@) =~= Seq::<CandidateView>::empty());
            v
        }
    }

    fn locate_platform(&mut self, utility: UtilityType, facts: &SearchFacts) -> (r: Result<
        UtilityLocation,
        LocatorError,
    >)
        requires
            !(utility is EdtCli),
        ensures
            old(self).platform_outcome(utility, *facts, r),
            final(self).spec_pinned() == (if r is Ok && old(self).spec_policy()
                == PlatformResolutionPolicy::Strict && old(self).spec_platform_hint() is Some
                && old(self).spec_pinned() is None {
                Some((r->Ok_0.installation_root@, r->Ok_0.source))
            } else {
                old(self).spec_pinned()
            }),
            final(self).spec_platform_hint() == old(self).spec_platform_hint(),
            final(self).spec_platform_version() == old(self).spec_platform_version(),
            final(self).spec_policy() == old(self).spec_policy(),
            final(self).spec_edt_hint() == old(self).spec_edt_hint(),
            final(self).spec_edt_version() == old(self).spec_edt_version(),
            final(self).spec_platform_roots() == old(self).spec_platform_roots(),
            final(self).spec_edt_roots() == old(self).spec_edt_roots(),
            final(self).spec_path_roots() == old(self).spec_path_roots(),
            final(self).cache@ == old(self).cache@,
    {
        let required = self.effective_platform_version_requirement();
        if self.platform_policy == PlatformResolutionPolicy::Strict {
            if let Some(pinned) = &self.pinned_platform {
                let cands = direct_candidates(pinned.root.as_str(), utility, pinned.source);
                return match select_pinned_candidate(
                    utility,
                    &cands,
                    required,
                    pinned.root.as_str(),
                    &facts.probes,
                ) {
                    Some(l) => Ok(l),
                    None => Err(
                        LocatorError::MissingSibling {
                            utility,
                            installation_root: copy_string(&pinned.root),
                        },
                    ),
                };
            }
        }
        match &self.platform_hint {
            Some(hint) => {
                let mode = match self.platform_policy {
                    PlatformResolutionPolicy::Lenient => FileHintSiblingResolution::Lexical,
                    PlatformResolutionPolicy::Strict => FileHintSiblingResolution::CanonicalInstallation,
                };
                let mut explicit = explicit_direct_candidates(hint, utility, mode, &facts.paths);
                let strict_boundary = match self.platform_policy {
                    PlatformResolutionPolicy::Lenient => None,
                    PlatformResolutionPolicy::Strict => Some(strict_candidate_boundary(hint, &facts.paths)),
                };
                let mut versioned = Self::versioned_hint_candidates(utility, hint, facts);
                let ghost ev = candidate_views(explicit@);
                let ghost vv = candidate_views(versioned@);
                explicit.append(&mut versioned);
                assert(candidate_views(explicit@) =~= ev + vv);
                let b = opt_str(&strict_boundary);
                match select_candidate(utility, &explicit, required, b, &facts.probes) {
                    Some(location) => {
                        self.pin_platform(&location);
                        Ok(location)
                    },
                    None => match self.platform_policy {
                        PlatformResolutionPolicy::Strict => Err(
                            strict_resolution_error(utility, Some(hint), &explicit, required, b, facts),
                        ),
                        PlatformResolutionPolicy::Lenient => Err(LocatorError::NotFound(utility)),
                    },
                }
            },
            None => {
                let mut candidates = candidates_any_version(
                    utility,
                    &self.platform_roots,
                    &facts.listings,
                    ResolutionSource::DefaultRoot,
                );
                let mut from_path = path_candidates(utility, &self.path_roots);
                let ghost a = candidate_views(candidates@);
                let ghost b = candidate_views(from_path@);
                candidates.append(&mut from_path);
                assert(candidate_views(candidates@) =~= a + b);
                match select_candidate(utility, &candidates, required, None, &facts.probes) {
                    Some(location) => {
                        self.pin_platform(&location);
                        Ok(location)
                    },
                    None => Err(LocatorError::NotFound(utility)),
                }
            },
        }
    }

    fn locate_edt(&self, utility: UtilityType, facts: &SearchFacts) -> (r: Result<UtilityLocation, LocatorError>)
        ensures
            self.edt_outcome(utility, *facts, r),
    {
        let direct = match &self.edt_hint {
            Some(h) => explicit_direct_candidates(h, utility, FileHintSiblingResolution::Lexical, &facts.paths),
            None => {
                let v: Vec<Candidate> = Vec::new();
                assert(candidate_views(v@) =~= Seq::<CandidateView>::empty());
                v
            },
        };
        if let Some(location) = select_edt_candidate(&direct, utility, None, &facts.probes) {
            return Ok(location);
        }
        let versioned = match &self.edt_hint {
            Some(h) => Self::versioned_hint_candidates(utility, h, facts),
            None => {
                let v: Vec<Candidate> = Vec::new();
                assert(candidate_views(v@) =~= Seq::<CandidateView>::empty());
                v
            },
        };
        let required = match &self.edt_version {
            Some(e) => Some(e),
            None => None,
        };
        if let Some(location) = select_edt_candidate(&versioned, utility, required, &facts.probes) {
            return Ok(location);
        }
        let mut candidates = candidates_any_version(
            utility,
            &self.edt_roots,
            &facts.listings,
            ResolutionSource::DefaultRoot,
        );
        let mut from_path = path_candidates(utility, &self.path_roots);
        let ghost a = candidate_views(candidates@);
        let ghost b = candidate_views(from_path@);
        candidates.append(&mut from_path);
        assert(candidate_views(candidates@) =~= a + b);
        match select_edt_candidate(&candidates, utility, required, &facts.probes) {
            Some(l) => Ok(l),
            None => Err(LocatorError::NotFound(utility)),
        }
    }

    /// Resolve an executable path for the requested utility from what the
    /// file system says now: a remembered location that still holds, else a
    /// fresh search, which is then remembered. In strict mode a platform
    /// location found lies in the pinned installation, and the first one
    /// found under a configured path pins its installation.
    #[verifier::rlimit(30)]
    pub fn locate(&mut self, utility: UtilityType, facts: &SearchFacts) -> (r: Result<UtilityLocation, LocatorError>)
        requires
            old(self).wf(),
        ensures
            final(self).wf(),
            r matches Ok(l) ==> l.utility == utility,
            r matches Err(e) ==> locator_error_well_formed(e),
            r matches Ok(l) ==> (!(utility is EdtCli) ==> platform_eligible(
                old(self).spec_effective_requirement(),
                opt_version_view(l.version),
            )),
            r matches Ok(l) ==> final(self).spec_cached(utility, old(self).spec_requirement_text(utility))
                == Some(location_view(l)),
            (r matches Ok(l) && old(self).spec_cached(utility, old(self).spec_requirement_text(utility))
                == Some(location_view(l))) || (if utility is EdtCli {
                old(self).edt_outcome(utility, *facts, r)
            } else {
                old(self).platform_outcome(utility, *facts, r)
            }),
            final(self).spec_pinned() == (if r is Ok && !(utility is EdtCli) && old(self).spec_policy()
                == PlatformResolutionPolicy::Strict && old(self).spec_platform_hint() is Some
                && old(self).spec_pinned() is None {
                Some((r->Ok_0.installation_root@, r->Ok_0.source))
            } else {
                old(self).spec_pinned()
            }),
            r matches Ok(l) ==> (!(utility is EdtCli) && old(self).spec_policy() == PlatformResolutionPolicy::Strict
                ==> (final(self).spec_pinned() matches Some(p) ==> path_eq(l.installation_root@, p.0))),
            final(self).spec_platform_hint() == old(self).spec_platform_hint(),
            final(self).spec_platform_version() == old(self).spec_platform_version(),
            final(self).spec_policy() == old(self).spec_policy(),
            final(self).spec_edt_hint() == old(self).spec_edt_hint(),
            final(self).spec_edt_version() == old(self).spec_edt_version(),
            final(self).spec_platform_roots() == old(self).spec_platform_roots(),
            final(self).spec_edt_roots() == old(self).spec_edt_roots(),
            final(self).spec_path_roots() == old(self).spec_path_roots(),
    {
        let key = self.version_requirement_string(utility);
        let ghost key_view = opt_string_view(key);
        let ghost start = *self;
        if let Some(idx) = self.cache_position(utility, &key) {
            let cached = copy_location(&self.cache[idx].location);
            if let Some(revalidated) = self.revalidate_cached_location(utility, &cached, facts) {
                assert(self.cache@[idx as int].location.utility == utility);
                proof {
                    if !(utility is EdtCli) && self.platform_policy == PlatformResolutionPolicy::Strict
                        && self.pinned_platform is Some {
                        assert(!(self.cache@[idx as int].location.utility is EdtCli));
                    }
                }
                return Ok(revalidated);
            }
            let ghost before = self.cache@;
            let _ = self.cache.remove(idx);
            assert forall|k: int| 0 <= k < self.cache@.len() implies (#[trigger] self.cache@[k]) == before[if k
                < idx {
                k
            } else {
                k + 1
            }] by {}
        }
        let selected = if utility.is_platform() {
            let res = self.locate_platform(utility, facts);
            proof {
                start.lemma_platform_outcome_eligible(utility, *facts, res);
                if start.spec_policy() == PlatformResolutionPolicy::Strict && start.spec_pinned() is Some {
                    start.law_pinned_siblings(utility, *facts, res);
                }
            }
            match res {
                Ok(l) => l,
                Err(e) => {
                    proof {
                        start.lemma_platform_error_well_formed(utility, *facts, res);
                    }
                    return Err(e);
                },
            }
        } else {
            match self.locate_edt(utility, facts) {
                Ok(l) => l,
                Err(e) => {
                    return Err(e);
                },
            }
        };
        let entry = CacheEntry { utility, requirement: key, location: copy_location(&selected) };
        let ghost before = self.cache@;
        self.cache.insert(0, entry);
        assert forall|k: int| 1 <= k < self.cache@.len() implies (#[trigger] self.cache@[k]) == before[k - 1] by {}
        assert(location_view(self.cache@[0].location) == location_view(selected));
        Ok(selected)
    }
}

proof fn lemma_eligible_only_eligible(cs: Seq<CanonicalView>, req: Option<PlatformVersionRequirement>)
    ensures
        forall|k: int|
            0 <= k < eligible_only(cs, req).len() ==> platform_eligible(req, (#[trigger] eligible_only(cs, req)[k]).1),
    decreases cs.len(),
{
    if cs.len() > 0 {
        lemma_eligible_only_eligible(cs.drop_last(), req);
        let prev = eligible_only(cs.drop_last(), req);
        if platform_eligible(req, cs.last().1) {
            assert forall|k: int| 0 <= k < prev.len() + 1 implies platform_eligible(req, (#[trigger] prev.push(cs.last())[k]).1) by {
                if k < prev.len() {
                    assert(prev.push(cs.last())[k] == prev[k]);
                }
            }
        }
    }
}

/// Every candidate kept by `same_root_only` has that installation root.
proof fn lemma_same_root_only_roots(cs: Seq<CanonicalView>, root: Seq<char>)
    ensures
        forall|k: int| 0 <= k < same_root_only(cs, root).len() ==> path_eq((#[trigger] same_root_only(cs, root)[k]).3, root),
    decreases cs.len(),
{
    if cs.len() > 0 {
        lemma_same_root_only_roots(cs.drop_last(), root);
        let prev = same_root_only(cs.drop_last(), root);
        if path_eq(cs.last().3, root) {
            assert forall|k: int| 0 <= k < prev.len() + 1 implies path_eq((#[trigger] prev.push(cs.last())[k]).3, root) by {
                if k < prev.len() {
                    assert(prev.push(cs.last())[k] == prev[k]);
                }
            }
        }
    }
}

/// Filtering by the requirement keeps only candidates with a given root.
proof fn lemma_eligible_only_keeps_root(cs: Seq<CanonicalView>, req: Option<PlatformVersionRequirement>, root: Seq<char>)
    requires
        forall|k: int| 0 <= k < cs.len() ==> path_eq((#[trigger] cs[k]).3, root),
    ensures
        forall|k: int| 0 <= k < eligible_only(cs, req).len() ==> path_eq((#[trigger] eligible_only(cs, req)[k]).3, root),
    decreases cs.len(),
{
    if cs.len() > 0 {
        assert forall|k: int| 0 <= k < cs.drop_last().len() implies path_eq((#[trigger] cs.drop_last()[k]).3, root) by {
            assert(cs.drop_last()[k] == cs[k]);
        }
        lemma_eligible_only_keeps_root(cs.drop_last(), req, root);
        let prev = eligible_only(cs.drop_last(), req);
        assert(path_eq(cs[cs.len() - 1].3, root));
        if platform_eligible(req, cs.last().1) {
            assert forall|k: int| 0 <= k < prev.len() + 1 implies path_eq((#[trigger] prev.push(cs.last())[k]).3, root) by {
                if k < prev.len() {
                    assert(prev.push(cs.last())[k] == prev[k]);
                }
            }
        }
    }
}

impl Locator {
    /// Once a strict search under a configured path has pinned an
    /// installation, a later platform search finds a utility of that same
    /// installation or reports it as a missing sibling; the default roots and
    /// `PATH` are not consulted.
    pub proof fn law_pinned_siblings(&self, u: UtilityType, facts: SearchFacts, r: Result<UtilityLocation, LocatorError>)
        requires
            self.spec_policy() == PlatformResolutionPolicy::Strict,
            self.spec_pinned() is Some,
            !(u is EdtCli),
            self.platform_outcome(u, facts, r),
        ensures
            r matches Ok(l) ==> (self.spec_pinned() matches Some(p) && path_eq(l.installation_root@, p.0)),
            r matches Err(e) ==> (self.spec_pinned() matches Some(p) && e matches LocatorError::MissingSibling {
                utility,
                installation_root,
            } && utility == u && installation_root@ == p.0),
    {
        let (root, src) = self.spec_pinned()->0;
        let cs = same_root_only(canonical_all(u, direct_candidate_views(root, u, src), facts.probes@, Some(root)), root);
        let req = self.spec_effective_requirement();
        lemma_same_root_only_roots(canonical_all(u, direct_candidate_views(root, u, src), facts.probes@, Some(root)), root);
        lemma_eligible_only_keeps_root(cs, req, root);
        lemma_last_max_in_range(eligible_only(cs, req));
    }
}

impl Locator {
    /// Without a configured platform path no installation is ever pinned, so
    /// every search looks at the default roots and `PATH`.
    pub proof fn law_unconfigured_never_pinned(&self)
        requires
            self.wf(),
        ensures
            self.spec_platform_hint() is None ==> self.spec_pinned() is None,
    {
    }
}

/// A chosen location passes the platform requirement it was chosen under.
pub proof fn law_chosen_meets_requirement(u: UtilityType, cs: Seq<CanonicalView>, req: Option<PlatformVersionRequirement>)
    ensures
        chosen_location(u, cs, req) matches Some(l) ==> platform_eligible(req, l.2) && l.0 == u,
{
    let f = eligible_only(cs, req);
    lemma_eligible_only_eligible(cs, req);
    lemma_last_max_in_range(f);
    if let Some(b) = last_max(f) {
        assert(platform_eligible(req, f[b].1));
    }
}

impl Locator {
    /// A platform search result passes the requirement in force.
    pub proof fn lemma_platform_outcome_eligible(
        &self,
        u: UtilityType,
        facts: SearchFacts,
        r: Result<UtilityLocation, LocatorError>,
    )
        requires
            self.platform_outcome(u, facts, r),
        ensures
            r matches Ok(l) ==> platform_eligible(self.spec_effective_requirement(), opt_version_view(l.version)),
    {
        let req = self.spec_effective_requirement();
        let probes = facts.probes@;
        if self.spec_policy() == PlatformResolutionPolicy::Strict && self.spec_pinned() is Some {
            let (root, src) = self.spec_pinned()->0;
            law_chosen_meets_requirement(
                u,
                same_root_only(canonical_all(u, direct_candidate_views(root, u, src), probes, Some(root)), root),
                req,
            );
        } else if self.spec_platform_hint() is Some {
            let h = self.spec_platform_hint()->0;
            law_chosen_meets_requirement(
                u,
                canonical_all(u, self.spec_explicit_platform(u, h, facts), probes, self.spec_strict_boundary(h, facts)),
                req,
            );
        } else {
            law_chosen_meets_requirement(u, canonical_all(u, self.spec_default_platform(u, facts), probes, None), req);
        }
    }
}

/// What a search needs to be told of the file system before it can name its candidates.
#[derive(Debug, Clone)]
pub struct SearchRequest {
    /// The configured hint to describe (`PathFacts`), if any.
    pub hint: Option<String>,
    /// The directories whose subdirectories to list (`DirListing`).
    pub roots: Vec<String>,
}

/// The paths of candidates.
pub open spec fn candidate_paths(cs: Seq<CandidateView>) -> Seq<Seq<char>> {
    cs.map_values(|c: CandidateView| c.0)
}

/// Appends the paths of `cands` to `out`.
fn push_candidate_paths(out: &mut Vec<String>, cands: &Vec<Candidate>)
    ensures
        strings_view(final(out)@) == strings_view(old(out)@) + candidate_paths(candidate_views(cands@)),
{
    let ghost start = strings_view(out@);
    let ghost cp = candidate_paths(candidate_views(cands@));
    let mut i: usize = 0;
    while i < cands.len()
        invariant
            i <= cands@.len(),
            cp == candidate_paths(candidate_views(cands@)),
            strings_view(out@) == start + cp.take(i as int),
        decreases cands@.len() - i,
    {
        let ghost before = strings_view(out@);
        out.push(copy_string(&cands[i].path));
        assert(cp[i as int] == cands@[i as int].path@);
        assert(strings_view(out@) =~= before.push(cp[i as int]));
        assert(cp.take(i + 1) =~= cp.take(i as int).push(cp[i as int]));
        i += 1;
    }
    assert(cp.take(cands@.len() as int) =~= cp);
}

impl Locator {
    /// The hint to describe and the roots to list for a search of `utility`:
    /// the utility's configured hint, and the hint followed by the utility's
    /// default roots.
    pub fn search_request(&self, utility: UtilityType) -> (q: SearchRequest)
        ensures
            opt_string_view(q.hint) == (if utility is EdtCli {
                self.spec_edt_hint()
            } else {
                self.spec_platform_hint()
            }),
            strings_view(q.roots@) == (match opt_string_view(q.hint) {
                Some(h) => seq![h],
                None => Seq::empty(),
            }) + if utility is EdtCli {
                self.spec_edt_roots()
            } else {
                self.spec_platform_roots()
            },
    {
        let hint = if utility.is_platform() {
            copy_opt_string(&self.platform_hint)
        } else {
            copy_opt_string(&self.edt_hint)
        };
        let mut roots: Vec<String> = Vec::new();
        if let Some(h) = &hint {
            roots.push(copy_string(h));
        }
        let defaults = if utility.is_platform() {
            &self.platform_roots
        } else {
            &self.edt_roots
        };
        let more = copy_strings(defaults);
        let ghost head = strings_view(roots@);
        let mut more = more;
        roots.append(&mut more);
        assert(strings_view(roots@) =~= head + strings_view(defaults@));
        SearchRequest { hint, roots }
    }

    /// Every path a search of `utility` may look up among the probes: the
    /// remembered location, and each candidate of every group the search can
    /// reach given `facts`.
    #[verifier::rlimit(30)]
    pub fn probe_paths(&self, utility: UtilityType, facts: &SearchFacts) -> (out: Vec<String>)
        ensures
            forall|k: int|
                0 <= k < self.spec_default_platform(utility, *facts).len() && !(utility is EdtCli)
                    ==> strings_view(out@).contains(#[trigger] self.spec_default_platform(utility, *facts)[k].0),
            forall|h: Seq<char>, k: int|
                self.spec_platform_hint() == Some(h) && !(utility is EdtCli) && 0 <= k
                    < self.spec_explicit_platform(utility, h, *facts).len() ==> strings_view(out@).contains(
                    #[trigger] self.spec_explicit_platform(utility, h, *facts)[k].0,
                ),
            forall|k: int|
                0 <= k < self.spec_edt_candidates(utility, *facts).len() && utility is EdtCli
                    ==> strings_view(out@).contains(#[trigger] self.spec_edt_candidates(utility, *facts)[k].0),
    {
        let mut out: Vec<String> = Vec::new();
        let mut i: usize = 0;
        while i < self.cache.len()
            invariant
                i <= self.cache@.len(),
            decreases self.cache@.len() - i,
        {
            if self.cache[i].utility == utility {
                out.push(copy_string(&self.cache[i].location.path));
            }
            i += 1;
        }
        let ghost mark = strings_view(out@);
        if utility.is_platform() {
            if let Some(pinned) = &self.pinned_platform {
                let c = direct_candidates(pinned.root.as_str(), utility, pinned.source);
                push_candidate_paths(&mut out, &c);
            }
            let ghost mark2 = strings_view(out@);
            if let Some(hint) = &self.platform_hint {
                let mode = match self.platform_policy {
                    PlatformResolutionPolicy::Lenient => FileHintSiblingResolution::Lexical,
                    PlatformResolutionPolicy::Strict => FileHintSiblingResolution::CanonicalInstallation,
                };
                let mut explicit = explicit_direct_candidates(hint, utility, mode, &facts.paths);
                let mut versioned = Self::versioned_hint_candidates(utility, hint, facts);
                let ghost ev = candidate_views(explicit@);
                let ghost vv = candidate_views(versioned@);
                explicit.append(&mut versioned);
                assert(candidate_views(explicit@) =~= ev + vv);
                let ghost before = strings_view(out@);
                push_candidate_paths(&mut out, &explicit);
                assert forall|k: int| 0 <= k < self.spec_explicit_platform(utility, hint@, *facts).len() implies strings_view(
                    out@,
                ).contains(#[trigger] self.spec_explicit_platform(utility, hint@, *facts)[k].0) by {
                    assert(strings_view(out@)[before.len() + k] == self.spec_explicit_platform(utility, hint@, *facts)[k].0);
                }
            }
            let ghost mark3 = strings_view(out@);
            let mut candidates = candidates_any_version(
                utility,
                &self.platform_roots,
                &facts.listings,
                ResolutionSource::DefaultRoot,
            );
            let mut from_path = path_candidates(utility, &self.path_roots);
            let ghost a = candidate_views(candidates@);
            let ghost b = candidate_views(from_path@);
            candidates.append(&mut from_path);
            assert(candidate_views(candidates@) =~= a + b);
            let ghost before = strings_view(out@);
            push_candidate_paths(&mut out, &candidates);
            assert forall|k: int| 0 <= k < self.spec_default_platform(utility, *facts).len() implies strings_view(
                out@,
            ).contains(#[trigger] self.spec_default_platform(utility, *facts)[k].0) by {
                assert(strings_view(out@)[before.len() + k] == self.spec_default_platform(utility, *facts)[k].0);
            }
            assert forall|h: Seq<char>, k: int|
                self.spec_platform_hint() == Some(h) && 0 <= k < self.spec_explicit_platform(utility, h, *facts).len()
                    implies strings_view(out@).contains(#[trigger] self.spec_explicit_platform(utility, h, *facts)[k].0) by {
                let x = self.spec_explicit_platform(utility, h, *facts)[k].0;
                assert(mark3.contains(x));
                let j = choose|j: int| 0 <= j < mark3.len() && mark3[j] == x;
                assert(strings_view(out@)[j] == mark3[j]);
            }
        } else {
            let ghost start = strings_view(out@);
            if let Some(hint) = &self.edt_hint {
                let direct = explicit_direct_candidates(hint, utility, FileHintSiblingResolution::Lexical, &facts.paths);
                push_candidate_paths(&mut out, &direct);
                let versioned = Self::versioned_hint_candidates(utility, hint, facts);
                push_candidate_paths(&mut out, &versioned);
            }
            let candidates = candidates_any_version(
                utility,
                &self.edt_roots,
                &facts.listings,
                ResolutionSource::DefaultRoot,
            );
            push_candidate_paths(&mut out, &candidates);
            let from_path = path_candidates(utility, &self.path_roots);
            push_candidate_paths(&mut out, &from_path);
            proof {
                let all = self.spec_edt_candidates(utility, *facts);
                assert(candidate_paths(all) =~= candidate_paths(match self.spec_edt_hint() {
                    Some(h) => explicit_direct_views(h, utility, FileHintSiblingResolution::Lexical, facts.paths@)
                        + versioned_hint_views(utility, h, *facts),
                    None => Seq::empty(),
                }) + candidate_paths(root_candidates(utility, self.spec_edt_roots(), facts.listings@, ResolutionSource::DefaultRoot))
                    + candidate_paths(path_candidate_views(utility, self.spec_path_roots())));
                if let Some(h) = self.spec_edt_hint() {
                    assert(candidate_paths(explicit_direct_views(h, utility, FileHintSiblingResolution::Lexical, facts.paths@)
                        + versioned_hint_views(utility, h, *facts)) =~= candidate_paths(explicit_direct_views(
                        h,
                        utility,
                        FileHintSiblingResolution::Lexical,
                        facts.paths@,
                    )) + candidate_paths(versioned_hint_views(utility, h, *facts)));
                }
                assert(strings_view(out@) =~= start + candidate_paths(all));
                assert forall|k: int| 0 <= k < all.len() implies strings_view(out@).contains(#[trigger] all[k].0) by {
                    assert(strings_view(out@)[start.len() + k] == candidate_paths(all)[k]);
                }
            }
        }
        out
    }
}

/// A chosen location is for the utility asked for.
proof fn lemma_chosen_utility_any(u: UtilityType)
    ensures
        forall|cs: Seq<CanonicalView>, req: Option<PlatformVersionRequirement>|
            #[trigger] chosen_location(u, cs, req) matches Some(l) ==> l.0 == u,
{
}


} // verus!
