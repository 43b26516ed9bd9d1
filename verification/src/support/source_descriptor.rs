//! Classification of 1C source descriptors (Designer XML dumps).
//!
//! The XML is tokenised by `quick_xml`; everything decided from the tokens
//! is verified here over the token sequence.

use vstd::prelude::*;

use quick_xml::events::Event;

use crate::support::path::path_file_name;
use crate::support::text::{
    append_chars, chars_eq, chars_eq_ignore_ascii_case, chars_of, eq_ignore_ascii_case, has_prefix,
    split_on, string_of, trim, trim_str,
};

verus! {

/// Purpose of a source-set root as its descriptor shows it.
#[derive(Debug, Clone, Copy, PartialEq, Eq, Hash, Structural)]
pub enum SourceDescriptorPurpose {
    Configuration,
    Extension,
    ExternalDataProcessors,
    ExternalReports,
}

impl SourceDescriptorPurpose {
    /// External data processors and reports are external.
    pub fn is_external(self) -> (b: bool)
        ensures
            b == (self is ExternalDataProcessors || self is ExternalReports),
    {
        matches!(self, Self::ExternalDataProcessors | Self::ExternalReports)
    }

    /// The descriptor root tag of an external purpose.
    pub fn external_root_tag(self) -> (r: Option<&'static str>)
        ensures
            match self {
                SourceDescriptorPurpose::ExternalDataProcessors => r matches Some(t) && t@
                    == "ExternalDataProcessor"@,
                SourceDescriptorPurpose::ExternalReports => r matches Some(t) && t@ == "ExternalReport"@,
                _ => r is None,
            },
    {
        match self {
            Self::ExternalDataProcessors => Some("ExternalDataProcessor"),
            Self::ExternalReports => Some("ExternalReport"),
            _ => None,
        }
    }
}

/// Logical name and purpose of an external descriptor.
#[derive(Debug, Clone, PartialEq, Eq)]
pub struct ParsedExternalDescriptor {
    pub logical_name: String,
    pub purpose: SourceDescriptorPurpose,
}

/// Failure to read a descriptor.
#[derive(Debug, Clone, PartialEq, Eq)]
pub enum SourceDescriptorParseError {
    Xml(String),
    UnexpectedEof,
}

/// Failure to read an external descriptor.
#[derive(Debug, Clone, PartialEq, Eq)]
pub enum ExternalDescriptorParseError {
    Xml(String),
    DecodeLogicalName(String),
    MissingRootElement,
    UnsupportedRootElement(String),
    MissingLogicalName,
}

/// One token of an XML document, with element names as written (prefix included).
#[derive(Debug, Clone, PartialEq, Eq)]
pub enum XmlItem {
    Start(String),
    Empty(String),
    End(String),
    /// Character data as written (entities not yet resolved).
    Text(String),
    Eof,
    /// A token the descriptor logic ignores (comment, CDATA, declaration, ...).
    Other,
    /// A syntax error, by its message.
    Failure(String),
}

/// The plain values of a token.
pub ghost enum XmlItemView {
    Start(Seq<char>),
    Empty(Seq<char>),
    End(Seq<char>),
    Text(Seq<char>),
    Eof,
    Other,
    Failure(Seq<char>),
}

pub open spec fn item_view(i: XmlItem) -> XmlItemView {
    match i {
        XmlItem::Start(s) => XmlItemView::Start(s@),
        XmlItem::Empty(s) => XmlItemView::Empty(s@),
        XmlItem::End(s) => XmlItemView::End(s@),
        XmlItem::Text(s) => XmlItemView::Text(s@),
        XmlItem::Eof => XmlItemView::Eof,
        XmlItem::Other => XmlItemView::Other,
        XmlItem::Failure(s) => XmlItemView::Failure(s@),
    }
}

pub open spec fn item_views(v: Seq<XmlItem>) -> Seq<XmlItemView> {
    v.map_values(|i: XmlItem| item_view(i))
}

/// The token ends reading: the end of the document or an error.
pub open spec fn is_terminal(i: XmlItemView) -> bool {
    i is Eof || i is Failure
}

/// Exactly the last token ends reading.
pub open spec fn stream_ends(s: Seq<XmlItemView>) -> bool {
    &&& s.len() > 0
    &&& is_terminal(s.last())
    &&& forall|k: int| 0 <= k < s.len() - 1 ==> !is_terminal(#[trigger] s[k])
}

/// The tokens `quick_xml::Reader::read_event` yields for `content` with
/// text trimming on, through the first end of document or error.
pub uninterp spec fn xml_event_stream(content: Seq<char>) -> Seq<XmlItemView>;

/// The tokens a reader has yet to yield, through the first end of document or error.
pub uninterp spec fn pending_xml_items(reader: quick_xml::Reader<&[u8]>) -> Seq<XmlItemView>;

/// `quick_xml::Reader`, held opaque.
#[verifier::external_type_specification]
#[verifier::external_body]
#[verifier::reject_recursive_types(R)]
pub struct ExXmlReader<R>(quick_xml::Reader<R>);

/// A reader over `content`, with text trimmed at both ends.
///
/// Calls `quick_xml::Reader::from_str` and `Config::trim_text(true)`. The
/// contract claims that the reader will yield the tokens of `content`,
/// ending with one end-of-document or error token: a reader over a finite
/// string reaches `Event::Eof`.
#[verifier::external_body]
fn open_xml_reader(content: &str) -> (r: quick_xml::Reader<&[u8]>)
    ensures
        pending_xml_items(r) == xml_event_stream(content@),
        stream_ends(pending_xml_items(r)),
{
    let mut reader = quick_xml::Reader::from_str(content);
    reader.config_mut().trim_text(true);
    reader
}

/// The next token of a reader.
///
/// Calls `quick_xml::Reader::read_event` and converts the event: element
/// names and text as written (UTF-8), errors by their message. The contract claims it yields the first pending token
/// and leaves the rest pending.
#[verifier::external_body]
fn read_xml_item(reader: &mut quick_xml::Reader<&[u8]>) -> (item: XmlItem)
    requires
        pending_xml_items(*old(reader)).len() > 0,
    ensures
        item_view(item) == pending_xml_items(*old(reader))[0],
        pending_xml_items(*final(reader)) == pending_xml_items(*old(reader)).drop_first(),
{
    match reader.read_event() {
        Ok(Event::Start(e)) => XmlItem::Start(String::from_utf8_lossy(e.name().as_ref()).into_owned()),
        Ok(Event::Empty(e)) => XmlItem::Empty(String::from_utf8_lossy(e.name().as_ref()).into_owned()),
        Ok(Event::End(e)) => XmlItem::End(String::from_utf8_lossy(e.name().as_ref()).into_owned()),
        Ok(Event::Text(t)) => XmlItem::Text(String::from_utf8_lossy(&t).into_owned()),
        Ok(Event::Eof) => XmlItem::Eof,
        Ok(_) => XmlItem::Other,
        Err(error) => XmlItem::Failure(error.to_string()),
    }
}

/// All tokens of `content`, through the first end of document or error.
pub fn read_xml_items(content: &str) -> (items: Vec<XmlItem>)
    ensures
        item_views(items@) == xml_event_stream(content@),
        stream_ends(item_views(items@)),
{
    let mut reader = open_xml_reader(content);
    let ghost all = pending_xml_items(reader);
    let mut items: Vec<XmlItem> = Vec::new();
    let mut done = false;
    assert(item_views(items@) =~= all.take(0));
    while !done
        invariant
            all == xml_event_stream(content@),
            stream_ends(all),
            item_views(items@) == all.take(items@.len() as int),
            items@.len() <= all.len(),
            pending_xml_items(reader) == all.skip(items@.len() as int),
            done ==> items@.len() == all.len(),
            !done ==> items@.len() < all.len(),
        decreases all.len() - items@.len(),
    {
        let item = read_xml_item(&mut reader);
        let k = items.len();
        assert(all.skip(k as int)[0] == all[k as int]);
        assert(all.skip(k as int).drop_first() =~= all.skip(k + 1));
        let terminal = match &item {
            XmlItem::Eof => true,
            XmlItem::Failure(_) => true,
            _ => false,
        };
        let ghost before = item_views(items@);
        items.push(item);
        assert(item_views(items@) =~= before.push(all[k as int]));
        assert(all.take(k + 1) =~= all.take(k as int).push(all[k as int]));
        if terminal {
            done = true;
        }
    }
    assert(all.take(all.len() as int) =~= all);
    items
}

/// The local part of a qualified name: what follows its last `:`.
pub open spec fn local_name(raw: Seq<char>) -> Seq<char> {
    split_on(raw, ':').last()
}

/// The local part of a qualified name.
pub fn xml_local_name(name: &str) -> (r: String)
    ensures
        r@ == local_name(name@),
{
    let cs = chars_of(name);
    let mut start: usize = cs.len();
    while start > 0 && cs[start - 1] != ':'
        invariant
            start <= cs@.len(),
            cs@ == name@,
            forall|k: int| start <= k < cs@.len() ==> cs@[k] != ':',
        decreases start,
    {
        start -= 1;
    }
    proof {
        lemma_split_last(cs@, start as int);
    }
    let tail = crate::support::text::slice_chars(cs.as_slice(), start, cs.len());
    string_of(tail.as_slice())
}

/// After the last `:` (found at `start - 1`, or none when `start` is 0),
/// the last piece of the split is the tail.
proof fn lemma_split_last(s: Seq<char>, start: int)
    requires
        0 <= start <= s.len(),
        forall|k: int| start <= k < s.len() ==> s[k] != ':',
        start > 0 ==> s[start - 1] == ':',
    ensures
        split_on(s, ':').last() == s.subrange(start, s.len() as int),
    decreases s.len(),
{
    crate::support::text::lemma_split_on_nonempty(s, ':');
    if s.len() == 0 {
        assert(s.subrange(0, 0) =~= Seq::<char>::empty());
    } else if start == 0 {
        lemma_no_sep_single(s);
    } else {
        let rest = s.drop_first();
        crate::support::text::lemma_split_on_nonempty(rest, ':');
        if start == 1 {
            lemma_no_sep_single(rest);
            assert(rest =~= s.subrange(1, s.len() as int));
        } else {
            assert forall|k: int| start - 1 <= k < rest.len() implies rest[k] != ':' by {
                assert(rest[k] == s[k + 1]);
            }
            assert(rest[start - 2] == s[start - 1]);
            lemma_split_last(rest, start - 1);
            assert(rest.subrange(start - 1, rest.len() as int) =~= s.subrange(start, s.len() as int));
            let r = split_on(rest, ':');
            if s[0] == ':' {
                assert((seq![Seq::<char>::empty()] + r).last() == r.last());
            } else {
                lemma_split_on_tail_count(rest, start - 2);
                assert(r.len() >= 2);
                assert(r.update(0, seq![s[0]] + r[0]).last() == r.last());
            }
        }
    }
}

/// Without separators, splitting gives the whole sequence.
proof fn lemma_no_sep_single(s: Seq<char>)
    requires
        forall|k: int| 0 <= k < s.len() ==> s[k] != ':',
    ensures
        split_on(s, ':') == seq![s],
    decreases s.len(),
{
    if s.len() > 0 {
        let rest = s.drop_first();
        assert forall|k: int| 0 <= k < rest.len() implies rest[k] != ':' by {
            assert(rest[k] == s[k + 1]);
        }
        lemma_no_sep_single(rest);
        assert(seq![s[0]] + rest =~= s);
        assert(split_on(s, ':') =~= seq![s]);
    } else {
        assert(s =~= Seq::<char>::empty());
    }
}

/// A separator at `k` makes at least two pieces.
proof fn lemma_split_on_tail_count(s: Seq<char>, k: int)
    requires
        0 <= k < s.len(),
        s[k] == ':',
    ensures
        split_on(s, ':').len() >= 2,
    decreases s.len(),
{
    crate::support::text::lemma_split_on_nonempty(s.drop_first(), ':');
    if k > 0 {
        assert(s.drop_first()[k - 1] == s[k]);
        lemma_split_on_tail_count(s.drop_first(), k - 1);
    }
}

/// Root element of a descriptor, read through a `MetaDataObject` wrapper.
#[derive(Debug, Clone, Copy, PartialEq, Eq, Structural)]
pub enum XmlDescriptorKind {
    Configuration,
    ExternalDataProcessor,
    ExternalReport,
}

/// What a descriptor scan finds.
#[derive(Debug, Clone, PartialEq, Eq)]
pub struct XmlDescriptorScan {
    pub kind: Option<XmlDescriptorKind>,
    pub effective_tag: Option<String>,
    pub has_configuration_extension_purpose: bool,
    pub has_object_belonging: bool,
}

/// The running state of a descriptor scan.
pub ghost struct ScanAcc {
    pub root: Option<Seq<char>>,
    pub first_child: Option<Seq<char>>,
    pub depth: int,
    pub extension_purpose: bool,
    pub object_belonging: bool,
    pub stopped: bool,
    pub error: Option<Seq<char>>,
}

pub open spec fn scan_start() -> ScanAcc {
    ScanAcc {
        root: None,
        first_child: None,
        depth: 0,
        extension_purpose: false,
        object_belonging: false,
        stopped: false,
        error: None,
    }
}

/// The marker flags after seeing an element named `tag`.
pub open spec fn mark_tag(a: ScanAcc, tag: Seq<char>) -> ScanAcc {
    if tag == "ConfigurationExtensionPurpose"@ {
        ScanAcc { extension_purpose: true, ..a }
    } else if tag == "ObjectBelonging"@ {
        ScanAcc { object_belonging: true, ..a }
    } else {
        a
    }
}

/// One token of a descriptor scan: the first element is the root; the first
/// element directly inside the root is its first child; an empty root element
/// ends the scan; marker elements anywhere set their flags.
pub open spec fn scan_step(a: ScanAcc, item: XmlItemView) -> ScanAcc {
    match item {
        XmlItemView::Start(raw) => {
            let tag = local_name(raw);
            let b = if a.root is None {
                ScanAcc { root: Some(tag), depth: 1, ..a }
            } else {
                ScanAcc {
                    first_child: if a.depth == 1 && a.first_child is None {
                        Some(tag)
                    } else {
                        a.first_child
                    },
                    depth: a.depth + 1,
                    ..a
                }
            };
            mark_tag(b, tag)
        },
        XmlItemView::Empty(raw) => {
            let tag = local_name(raw);
            if a.root is None {
                ScanAcc { root: Some(tag), stopped: true, ..a }
            } else {
                let b = ScanAcc {
                    first_child: if a.depth == 1 && a.first_child is None {
                        Some(tag)
                    } else {
                        a.first_child
                    },
                    ..a
                };
                mark_tag(b, tag)
            }
        },
        XmlItemView::End(_) => ScanAcc { depth: if a.depth > 0 { a.depth - 1 } else { 0 }, ..a },
        XmlItemView::Eof => ScanAcc { stopped: true, ..a },
        XmlItemView::Failure(m) => ScanAcc { error: Some(m), ..a },
        _ => a,
    }
}

/// The scan state after the tokens, up to where it stopped.
pub open spec fn scan_acc(items: Seq<XmlItemView>) -> ScanAcc
    decreases items.len(),
{
    if items.len() == 0 {
        scan_start()
    } else {
        let a = scan_acc(items.drop_last());
        if a.stopped || a.error is Some {
            a
        } else {
            scan_step(a, items.last())
        }
    }
}

/// The tag that decides the kind: the root, or the first child of a `MetaDataObject` root.
pub open spec fn effective_tag_of(a: ScanAcc) -> Option<Seq<char>> {
    if a.root == Some("MetaDataObject"@) {
        a.first_child
    } else {
        a.root
    }
}

pub open spec fn kind_of_tag(t: Option<Seq<char>>) -> Option<XmlDescriptorKind> {
    if t == Some("Configuration"@) {
        Some(XmlDescriptorKind::Configuration)
    } else if t == Some("ExternalDataProcessor"@) {
        Some(XmlDescriptorKind::ExternalDataProcessor)
    } else if t == Some("ExternalReport"@) {
        Some(XmlDescriptorKind::ExternalReport)
    } else {
        None
    }
}

pub open spec fn opt_string_view(o: Option<String>) -> Option<Seq<char>> {
    match o {
        Some(s) => Some(s@),
        None => None,
    }
}

/// `r` is the outcome of scanning the tokens: the syntax error if one came,
/// `UnexpectedEof` if elements were left open, else what was found.
pub open spec fn scan_result_is(
    items: Seq<XmlItemView>,
    r: Result<XmlDescriptorScan, SourceDescriptorParseError>,
) -> bool {
    let a = scan_acc(items);
    match a.error {
        Some(m) => r matches Err(SourceDescriptorParseError::Xml(e)) && e@ == m,
        None => if a.depth > 0 {
            r == Err::<XmlDescriptorScan, SourceDescriptorParseError>(
                SourceDescriptorParseError::UnexpectedEof,
            )
        } else {
            r matches Ok(s) && s.kind == kind_of_tag(effective_tag_of(a)) && opt_string_view(
                s.effective_tag,
            ) == effective_tag_of(a) && s.has_configuration_extension_purpose
                == a.extension_purpose && s.has_object_belonging == a.object_belonging
        },
    }
}

fn copy_opt(o: &Option<String>) -> (r: Option<String>)
    ensures
        opt_string_view(r) == opt_string_view(*o),
{
    match o {
        Some(s) => Some(s.clone()),
        None => None,
    }
}

fn str_is(s: &String, lit: &str) -> (b: bool)
    ensures
        b == (s@ == lit@),
{
    let a = chars_of(s.as_str());
    let b = chars_of(lit);
    chars_eq(a.as_slice(), b.as_slice())
}

/// Scans descriptor tokens (see [`scan_step`]).
pub fn scan_descriptor_items(items: &Vec<XmlItem>) -> (r: Result<XmlDescriptorScan, SourceDescriptorParseError>)
    ensures
        scan_result_is(item_views(items@), r),
{
    let ghost iv = item_views(items@);
    let mut root: Option<String> = None;
    let mut first_child: Option<String> = None;
    let mut depth: usize = 0;
    let mut ext = false;
    let mut belonging = false;
    let mut i: usize = 0;
    let mut stopped = false;
    while i < items.len() && !stopped
        invariant
            i <= items@.len(),
            iv == item_views(items@),
            depth <= i,
            ({
                let a = scan_acc(iv.take(i as int));
                &&& opt_string_view(root) == a.root
                &&& opt_string_view(first_child) == a.first_child
                &&& depth as int == a.depth
                &&& ext == a.extension_purpose
                &&& belonging == a.object_belonging
                &&& stopped == a.stopped
                &&& a.error is None
            }),
        decreases items@.len() - i,
    {
        let ghost a = scan_acc(iv.take(i as int));
        assert(iv.take(i + 1).drop_last() =~= iv.take(i as int));
        assert(iv.take(i + 1).last() == item_view(items@[i as int]));
        match &items[i] {
            XmlItem::Start(raw) => {
                let tag = xml_local_name(raw.as_str());
                if root.is_none() {
                    root = Some(tag.clone());
                    depth = 1;
                } else {
                    if depth == 1 && first_child.is_none() {
                        first_child = Some(tag.clone());
                    }
                    depth += 1;
                }
                if str_is(&tag, "ConfigurationExtensionPurpose") {
                    ext = true;
                } else if str_is(&tag, "ObjectBelonging") {
                    belonging = true;
                }
            },
            XmlItem::Empty(raw) => {
                let tag = xml_local_name(raw.as_str());
                if root.is_none() {
                    root = Some(tag);
                    stopped = true;
                } else {
                    if depth == 1 && first_child.is_none() {
                        first_child = Some(tag.clone());
                    }
                    if str_is(&tag, "ConfigurationExtensionPurpose") {
                        ext = true;
                    } else if str_is(&tag, "ObjectBelonging") {
                        belonging = true;
                    }
                }
            },
            XmlItem::End(_) => {
                if depth > 0 {
                    depth -= 1;
                }
            },
            XmlItem::Eof => {
                stopped = true;
            },
            XmlItem::Failure(m) => {
                assert(scan_acc(iv.take(i + 1)).error == Some(m@));
                proof {
                    lemma_scan_error_sticks(iv, i as int + 1);
                }
                return Err(SourceDescriptorParseError::Xml(m.clone()));
            },
            _ => {},
        }
        i += 1;
    }
    proof {
        lemma_scan_stopped_sticks(iv, i as int);
    }
    if depth > 0 {
        return Err(SourceDescriptorParseError::UnexpectedEof);
    }
    let is_wrapper = match &root {
        Some(r) => str_is(r, "MetaDataObject"),
        None => false,
    };
    let effective = if is_wrapper {
        copy_opt(&first_child)
    } else {
        copy_opt(&root)
    };
    let kind = match &effective {
        Some(t) => {
            if str_is(t, "Configuration") {
                Some(XmlDescriptorKind::Configuration)
            } else if str_is(t, "ExternalDataProcessor") {
                Some(XmlDescriptorKind::ExternalDataProcessor)
            } else if str_is(t, "ExternalReport") {
                Some(XmlDescriptorKind::ExternalReport)
            } else {
                None
            }
        },
        None => None,
    };
    Ok(
        XmlDescriptorScan {
            kind,
            effective_tag: effective,
            has_configuration_extension_purpose: ext,
            has_object_belonging: belonging,
        },
    )
}

/// Once the scan hit an error, later tokens change nothing.
proof fn lemma_scan_error_sticks(items: Seq<XmlItemView>, k: int)
    requires
        0 <= k <= items.len(),
        scan_acc(items.take(k)).error is Some,
    ensures
        scan_acc(items) == scan_acc(items.take(k)),
    decreases items.len() - k,
{
    if k < items.len() {
        assert(items.take(k + 1).drop_last() =~= items.take(k));
        lemma_scan_error_sticks(items, k + 1);
    } else {
        assert(items.take(k) =~= items);
    }
}

/// Once the scan stopped (or all tokens were read), later tokens change nothing.
proof fn lemma_scan_stopped_sticks(items: Seq<XmlItemView>, k: int)
    requires
        0 <= k <= items.len(),
        scan_acc(items.take(k)).stopped || k == items.len(),
        scan_acc(items.take(k)).error is None,
    ensures
        scan_acc(items) == scan_acc(items.take(k)),
    decreases items.len() - k,
{
    if k < items.len() {
        assert(items.take(k + 1).drop_last() =~= items.take(k));
        lemma_scan_stopped_sticks(items, k + 1);
    } else {
        assert(items.take(k) =~= items);
    }
}

/// Scans the XML descriptor `content`.
pub fn scan_xml_descriptor(content: &str) -> (r: Result<XmlDescriptorScan, SourceDescriptorParseError>)
    ensures
        scan_result_is(xml_event_stream(content@), r),
{
    let items = read_xml_items(content);
    scan_descriptor_items(&items)
}

/// The purpose a scan shows: a configuration with an extension marker is an
/// extension.
pub open spec fn purpose_of_scan(s: XmlDescriptorScan) -> Option<SourceDescriptorPurpose> {
    match s.kind {
        Some(XmlDescriptorKind::Configuration) => if s.has_configuration_extension_purpose
            || s.has_object_belonging {
            Some(SourceDescriptorPurpose::Extension)
        } else {
            Some(SourceDescriptorPurpose::Configuration)
        },
        Some(XmlDescriptorKind::ExternalDataProcessor) => Some(
            SourceDescriptorPurpose::ExternalDataProcessors,
        ),
        Some(XmlDescriptorKind::ExternalReport) => Some(SourceDescriptorPurpose::ExternalReports),
        None => None,
    }
}

/// The purpose a scan shows (see [`purpose_of_scan`]).
pub fn classify_scan(scan: &XmlDescriptorScan) -> (r: Option<SourceDescriptorPurpose>)
    ensures
        r == purpose_of_scan(*scan),
{
    match scan.kind {
        Some(XmlDescriptorKind::Configuration) => {
            if scan.has_configuration_extension_purpose || scan.has_object_belonging {
                Some(SourceDescriptorPurpose::Extension)
            } else {
                Some(SourceDescriptorPurpose::Configuration)
            }
        },
        Some(XmlDescriptorKind::ExternalDataProcessor) => Some(
            SourceDescriptorPurpose::ExternalDataProcessors,
        ),
        Some(XmlDescriptorKind::ExternalReport) => Some(SourceDescriptorPurpose::ExternalReports),
        None => None,
    }
}

/// `r` classifies the tokens: the scan's error, else the purpose it shows.
pub open spec fn classified(
    items: Seq<XmlItemView>,
    r: Result<Option<SourceDescriptorPurpose>, SourceDescriptorParseError>,
) -> bool {
    let a = scan_acc(items);
    match a.error {
        Some(m) => r matches Err(SourceDescriptorParseError::Xml(e)) && e@ == m,
        None => if a.depth > 0 {
            r == Err::<Option<SourceDescriptorPurpose>, SourceDescriptorParseError>(
                SourceDescriptorParseError::UnexpectedEof,
            )
        } else {
            r matches Ok(p) && p == purpose_of_tag(effective_tag_of(a), a)
        },
    }
}

/// The purpose an effective tag and the markers show.
pub open spec fn purpose_of_tag(t: Option<Seq<char>>, a: ScanAcc) -> Option<SourceDescriptorPurpose> {
    match kind_of_tag(t) {
        Some(XmlDescriptorKind::Configuration) => if a.extension_purpose || a.object_belonging {
            Some(SourceDescriptorPurpose::Extension)
        } else {
            Some(SourceDescriptorPurpose::Configuration)
        },
        Some(XmlDescriptorKind::ExternalDataProcessor) => Some(
            SourceDescriptorPurpose::ExternalDataProcessors,
        ),
        Some(XmlDescriptorKind::ExternalReport) => Some(SourceDescriptorPurpose::ExternalReports),
        None => None,
    }
}

/// Classifies descriptor tokens.
pub fn classify_descriptor_items(items: &Vec<XmlItem>) -> (r: Result<Option<SourceDescriptorPurpose>, SourceDescriptorParseError>)
    ensures
        classified(item_views(items@), r),
{
    match scan_descriptor_items(items) {
        Ok(scan) => Ok(classify_scan(&scan)),
        Err(e) => Err(e),
    }
}

/// Classifies the descriptor `content`.
pub fn classify_source_descriptor(content: &str) -> (r: Result<Option<SourceDescriptorPurpose>, SourceDescriptorParseError>)
    ensures
        classified(xml_event_stream(content@), r),
{
    let items = read_xml_items(content);
    classify_descriptor_items(&items)
}

/// Classifies the descriptor `content`, keeping only external purposes.
pub fn classify_external_source_descriptor(content: &str) -> (r: Result<Option<SourceDescriptorPurpose>, SourceDescriptorParseError>)
    ensures
        match r {
            Ok(p) => exists|q: Option<SourceDescriptorPurpose>|
                #[trigger] classified(xml_event_stream(content@), Ok(q)) && p == (match q {
                    Some(x) => if x is ExternalDataProcessors || x is ExternalReports {
                        Some(x)
                    } else {
                        None
                    },
                    None => None,
                }),
            Err(e) => classified(xml_event_stream(content@), Err(e)),
        },
{
    match classify_source_descriptor(content) {
        Ok(Some(purpose)) => {
            if purpose.is_external() {
                Ok(Some(purpose))
            } else {
                Ok(None)
            }
        },
        Ok(None) => Ok(None),
        Err(e) => Err(e),
    }
}

/// The text that `quick_xml::escape::unescape` makes of `raw`: entity and
/// character references resolved; `None` where it fails.
pub uninterp spec fn xml_unescape_result(raw: Seq<char>) -> Option<Seq<char>>;

/// Resolves the references in character data.
///
/// Calls `quick_xml::escape::unescape`. The contract claims that its result
/// is what the name above gives for `raw`; the message of a failure is not
/// stated.
#[verifier::external_body]
fn unescape_xml(raw: &str) -> (r: Result<String, String>)
    ensures
        r matches Ok(s) ==> xml_unescape_result(raw@) == Some(s@),
        r is Err ==> xml_unescape_result(raw@) is None,
{
    quick_xml::escape::unescape(raw).map(|text| text.into_owned()).map_err(|error| error.to_string())
}

/// The running state of the logical-name search.
pub ghost struct NameAcc {
    pub seen_properties: bool,
    pub seen_name: bool,
    pub name: Option<Seq<char>>,
    pub stopped: bool,
    pub xml_error: Option<Seq<char>>,
    pub decode_error: bool,
}

pub open spec fn name_start() -> NameAcc {
    NameAcc {
        seen_properties: false,
        seen_name: false,
        name: None,
        stopped: false,
        xml_error: None,
        decode_error: false,
    }
}

/// One token of the logical-name search: a `Name` element inside
/// `Properties` opens the name; the first text inside it, unescaped, is the
/// logical name.
pub open spec fn name_step(a: NameAcc, item: XmlItemView) -> NameAcc {
    match item {
        XmlItemView::Start(raw) => {
            let tag = local_name(raw);
            if tag == "Properties"@ {
                NameAcc { seen_properties: true, ..a }
            } else if a.seen_properties && tag == "Name"@ {
                NameAcc { seen_name: true, ..a }
            } else {
                a
            }
        },
        XmlItemView::Text(t) => if a.seen_name && a.name is None {
            match xml_unescape_result(t) {
                Some(v) => NameAcc { name: Some(v), ..a },
                None => NameAcc { decode_error: true, ..a },
            }
        } else {
            a
        },
        XmlItemView::End(raw) => {
            let tag = local_name(raw);
            if tag == "Name"@ {
                NameAcc { seen_name: false, ..a }
            } else if tag == "Properties"@ {
                NameAcc { seen_properties: false, ..a }
            } else {
                a
            }
        },
        XmlItemView::Eof => NameAcc { stopped: true, ..a },
        XmlItemView::Failure(m) => NameAcc { xml_error: Some(m), ..a },
        _ => a,
    }
}

/// The search state after the tokens, up to where it stopped.
pub open spec fn name_acc(items: Seq<XmlItemView>) -> NameAcc
    decreases items.len(),
{
    if items.len() == 0 {
        name_start()
    } else {
        let a = name_acc(items.drop_last());
        if a.stopped || a.xml_error is Some || a.decode_error {
            a
        } else {
            name_step(a, items.last())
        }
    }
}

proof fn lemma_name_sticks(items: Seq<XmlItemView>, k: int)
    requires
        0 <= k <= items.len(),
        ({
            let a = name_acc(items.take(k));
            a.stopped || a.xml_error is Some || a.decode_error || k == items.len()
        }),
    ensures
        name_acc(items) == name_acc(items.take(k)),
    decreases items.len() - k,
{
    if k < items.len() {
        assert(items.take(k + 1).drop_last() =~= items.take(k));
        lemma_name_sticks(items, k + 1);
    } else {
        assert(items.take(k) =~= items);
    }
}

/// `r` is the outcome of the logical-name search over the tokens.
pub open spec fn logical_name_is(items: Seq<XmlItemView>, r: Result<Option<String>, ExternalDescriptorParseError>) -> bool {
    let a = name_acc(items);
    match a.xml_error {
        Some(m) => r matches Err(ExternalDescriptorParseError::Xml(e)) && e@ == m,
        None => if a.decode_error {
            r matches Err(ExternalDescriptorParseError::DecodeLogicalName(_))
        } else {
            r matches Ok(n) && opt_string_view(n) == a.name
        },
    }
}

/// The logical name in descriptor tokens: the first text of a `Name`
/// element inside `Properties`.
pub fn extract_logical_name_items(items: &Vec<XmlItem>) -> (r: Result<Option<String>, ExternalDescriptorParseError>)
    ensures
        logical_name_is(item_views(items@), r),
{
    let ghost iv = item_views(items@);
    let mut seen_properties = false;
    let mut seen_name = false;
    let mut name: Option<String> = None;
    let mut stopped = false;
    let mut i: usize = 0;
    while i < items.len() && !stopped
        invariant
            i <= items@.len(),
            iv == item_views(items@),
            ({
                let a = name_acc(iv.take(i as int));
                &&& seen_properties == a.seen_properties
                &&& seen_name == a.seen_name
                &&& opt_string_view(name) == a.name
                &&& stopped == a.stopped
                &&& a.xml_error is None
                &&& !a.decode_error
            }),
        decreases items@.len() - i,
    {
        assert(iv.take(i + 1).drop_last() =~= iv.take(i as int));
        assert(iv.take(i + 1).last() == item_view(items@[i as int]));
        match &items[i] {
            XmlItem::Start(raw) => {
                let tag = xml_local_name(raw.as_str());
                if str_is(&tag, "Properties") {
                    seen_properties = true;
                } else if seen_properties && str_is(&tag, "Name") {
                    seen_name = true;
                }
            },
            XmlItem::Text(t) => {
                if seen_name && name.is_none() {
                    match unescape_xml(t.as_str()) {
                        Ok(v) => {
                            name = Some(v);
                        },
                        Err(m) => {
                            proof {
                                lemma_name_sticks(iv, i as int + 1);
                            }
                            return Err(ExternalDescriptorParseError::DecodeLogicalName(m));
                        },
                    }
                }
            },
            XmlItem::End(raw) => {
                let tag = xml_local_name(raw.as_str());
                if str_is(&tag, "Name") {
                    seen_name = false;
                } else if str_is(&tag, "Properties") {
                    seen_properties = false;
                }
            },
            XmlItem::Eof => {
                stopped = true;
            },
            XmlItem::Failure(m) => {
                proof {
                    lemma_name_sticks(iv, i as int + 1);
                }
                return Err(ExternalDescriptorParseError::Xml(m.clone()));
            },
            _ => {},
        }
        i += 1;
    }
    proof {
        lemma_name_sticks(iv, i as int);
    }
    Ok(name)
}

/// The logical name in the descriptor `content`.
pub fn extract_logical_name(content: &str) -> (r: Result<Option<String>, ExternalDescriptorParseError>)
    ensures
        logical_name_is(xml_event_stream(content@), r),
{
    let items = read_xml_items(content);
    extract_logical_name_items(&items)
}

/// `r` is the outcome of reading an external descriptor from its tokens: the
/// scan's failure, an unsupported or missing root, or its purpose with the
/// trimmed, non-empty logical name.
pub open spec fn external_parse_is(
    items: Seq<XmlItemView>,
    r: Result<ParsedExternalDescriptor, ExternalDescriptorParseError>,
) -> bool {
    let a = scan_acc(items);
    match a.error {
        Some(m) => r matches Err(ExternalDescriptorParseError::Xml(e)) && e@ == m,
        None => if a.depth > 0 {
            r matches Err(ExternalDescriptorParseError::Xml(e)) && e@ == "unexpected EOF"@
        } else {
            let tag = effective_tag_of(a);
            match kind_of_tag(tag) {
                Some(XmlDescriptorKind::Configuration) => r matches Err(
                    ExternalDescriptorParseError::UnsupportedRootElement(t),
                ) && t@ == "Configuration"@,
                None => match tag {
                    Some(t0) => r matches Err(ExternalDescriptorParseError::UnsupportedRootElement(t))
                        && t@ == t0,
                    None => r == Err::<ParsedExternalDescriptor, ExternalDescriptorParseError>(
                        ExternalDescriptorParseError::MissingRootElement,
                    ),
                },
                Some(k) => {
                    let purpose = if k == XmlDescriptorKind::ExternalDataProcessor {
                        SourceDescriptorPurpose::ExternalDataProcessors
                    } else {
                        SourceDescriptorPurpose::ExternalReports
                    };
                    let n = name_acc(items);
                    match n.xml_error {
                        Some(m) => r matches Err(ExternalDescriptorParseError::Xml(e)) && e@ == m,
                        None => if n.decode_error {
                            r matches Err(ExternalDescriptorParseError::DecodeLogicalName(_))
                        } else {
                            match n.name {
                                Some(v) => if trim(v).len() > 0 {
                                    r matches Ok(p) && p.logical_name@ == trim(v) && p.purpose == purpose
                                } else {
                                    r == Err::<ParsedExternalDescriptor, ExternalDescriptorParseError>(
                                        ExternalDescriptorParseError::MissingLogicalName,
                                    )
                                },
                                None => r == Err::<ParsedExternalDescriptor, ExternalDescriptorParseError>(
                                    ExternalDescriptorParseError::MissingLogicalName,
                                ),
                            }
                        },
                    }
                },
            }
        },
    }
}

/// Reads an external descriptor from its tokens.
pub fn parse_external_descriptor_items(items: &Vec<XmlItem>) -> (r: Result<ParsedExternalDescriptor, ExternalDescriptorParseError>)
    ensures
        external_parse_is(item_views(items@), r),
{
    let scan = match scan_descriptor_items(items) {
        Ok(s) => s,
        Err(SourceDescriptorParseError::Xml(e)) => return Err(ExternalDescriptorParseError::Xml(e)),
        Err(SourceDescriptorParseError::UnexpectedEof) => {
            return Err(ExternalDescriptorParseError::Xml(String::from_str("unexpected EOF")));
        },
    };
    let purpose = match scan.kind {
        Some(XmlDescriptorKind::ExternalDataProcessor) => SourceDescriptorPurpose::ExternalDataProcessors,
        Some(XmlDescriptorKind::ExternalReport) => SourceDescriptorPurpose::ExternalReports,
        Some(XmlDescriptorKind::Configuration) => {
            return Err(
                ExternalDescriptorParseError::UnsupportedRootElement(
                    match scan.effective_tag {
                        Some(t) => t,
                        None => String::from_str("Configuration"),
                    },
                ),
            );
        },
        None => {
            return match scan.effective_tag {
                Some(root) => Err(ExternalDescriptorParseError::UnsupportedRootElement(root)),
                None => Err(ExternalDescriptorParseError::MissingRootElement),
            };
        },
    };
    let name = match extract_logical_name_items(items)? {
        Some(n) => n,
        None => return Err(ExternalDescriptorParseError::MissingLogicalName),
    };
    let logical_name = trim_str(name.as_str());
    if chars_of(logical_name.as_str()).len() == 0 {
        return Err(ExternalDescriptorParseError::MissingLogicalName);
    }
    Ok(ParsedExternalDescriptor { logical_name, purpose })
}

/// Reads the external descriptor `content`: its purpose and logical name.
pub fn parse_external_descriptor(content: &str) -> (r: Result<ParsedExternalDescriptor, ExternalDescriptorParseError>)
    ensures
        external_parse_is(xml_event_stream(content@), r),
{
    let items = read_xml_items(content);
    parse_external_descriptor_items(&items)
}

/// The external purpose the tokens of a descriptor show, or why they show none.
pub open spec fn external_purpose_of(items: Seq<XmlItemView>) -> Result<Option<SourceDescriptorPurpose>, Seq<char>> {
    let a = scan_acc(items);
    match a.error {
        Some(m) => Err(m),
        None => if a.depth > 0 {
            Err("unexpected EOF"@)
        } else {
            match purpose_of_tag(effective_tag_of(a), a) {
                Some(p) => if p is ExternalDataProcessors || p is ExternalReports {
                    Ok(Some(p))
                } else {
                    Ok(None)
                },
                None => Ok(None),
            }
        },
    }
}

/// Failure to scan a source-set root directory.
#[derive(Debug, Clone, PartialEq, Eq)]
pub enum SourceSetRootScanError {
    Runtime(String),
    Validation(String),
}

/// A descriptor file found in a Designer external root.
#[derive(Debug, Clone, PartialEq, Eq)]
pub struct DesignerExternalDescriptorEntry {
    pub path: String,
    pub purpose: Option<SourceDescriptorPurpose>,
}

/// An EDT project directory found in an EDT external root.
#[derive(Debug, Clone, PartialEq, Eq)]
pub struct EdtExternalProjectEntry {
    pub path: String,
    pub purpose: Option<SourceDescriptorPurpose>,
}

/// The type of a directory entry.
#[derive(Debug, Clone, Copy, PartialEq, Eq, Structural)]
pub struct EntryKind {
    pub is_symlink: bool,
    pub is_file: bool,
    pub is_dir: bool,
}

/// Why a directory entry could not be examined.
#[derive(Debug, Clone, PartialEq, Eq)]
pub enum EntryFailure {
    /// The entry itself could not be read.
    Entry(String),
    /// Its file type could not be read.
    FileType(String),
}

/// What the file system says of one directory entry.
#[derive(Debug)]
pub struct DirEntryFacts {
    pub path: String,
    pub kind: Result<EntryKind, EntryFailure>,
    /// The file's content, read for the entries the scan reads.
    pub content: Option<Result<String, String>>,
}

/// An entry is a descriptor to read: a regular file, not a link, with an
/// `xml` extension in any ASCII case.
pub open spec fn is_descriptor_entry_spec(kind: EntryKind, path: Seq<char>) -> bool {
    &&& !kind.is_symlink
    &&& kind.is_file
    &&& match crate::change_detection::partial_load::extension(path) {
        Some(e) => eq_ignore_ascii_case(e, "xml"@),
        None => false,
    }
}

/// Whether an entry is a descriptor to read (see [`is_descriptor_entry_spec`]).
pub fn is_descriptor_entry(kind: &EntryKind, path: &str) -> (b: bool)
    ensures
        b == is_descriptor_entry_spec(*kind, path@),
{
    if kind.is_symlink || !kind.is_file {
        return false;
    }
    match crate::change_detection::partial_load::path_extension(path) {
        Some(e) => {
            let ec = chars_of(e.as_str());
            let x = chars_of("xml");
            chars_eq_ignore_ascii_case(ec.as_slice(), x.as_slice())
        },
        None => false,
    }
}

/// `prefix + '<place>': + detail`.
pub open spec fn place_message(prefix: Seq<char>, place: Seq<char>, detail: Seq<char>) -> Seq<char> {
    prefix + " '"@ + place + "': "@ + detail
}

fn place_message_exec(prefix: &str, place: &str, detail: &str) -> (r: String)
    ensures
        r@ == place_message(prefix@, place@, detail@),
{
    let mut m: Vec<char> = Vec::new();
    let a = chars_of(prefix);
    append_chars(&mut m, a.as_slice());
    let b = chars_of(" '");
    append_chars(&mut m, b.as_slice());
    let c = chars_of(place);
    append_chars(&mut m, c.as_slice());
    let d = chars_of("': ");
    append_chars(&mut m, d.as_slice());
    let e = chars_of(detail);
    append_chars(&mut m, e.as_slice());
    string_of(m.as_slice())
}

/// Every descriptor entry that could be examined comes with its content.
pub open spec fn contents_given(entries: Seq<DirEntryFacts>) -> bool {
    forall|k: int|
        0 <= k < entries.len() ==> ((#[trigger] entries[k]).kind matches Ok(kind)
            ==> (is_descriptor_entry_spec(kind, entries[k].path@) ==> entries[k].content is Some))
}

/// The outcome of scanning a Designer external root: for each entry in order,
/// a failure to examine it or to read a descriptor is a runtime error, a
/// descriptor that does not parse a validation error; every descriptor is
/// listed with its external purpose.
pub open spec fn designer_scan(
    dir: Seq<char>,
    entries: Seq<DirEntryFacts>,
) -> Result<Seq<(Seq<char>, Option<SourceDescriptorPurpose>)>, (bool, Seq<char>)>
    decreases entries.len(),
{
    if entries.len() == 0 {
        Ok(Seq::empty())
    } else {
        match designer_scan(dir, entries.drop_last()) {
            Err(e) => Err(e),
            Ok(found) => {
                let e = entries.last();
                match e.kind {
                    Err(EntryFailure::Entry(m)) => Err(
                        (true, place_message("failed to read source directory entry"@, dir, m@)),
                    ),
                    Err(EntryFailure::FileType(m)) => Err(
                        (true, place_message("failed to inspect source directory entry"@, dir, m@)),
                    ),
                    Ok(kind) => if !is_descriptor_entry_spec(kind, e.path@) {
                        Ok(found)
                    } else {
                        match e.content {
                            Some(Ok(c)) => match external_purpose_of(xml_event_stream(c@)) {
                                Ok(p) => Ok(found.push((e.path@, p))),
                                Err(m) => Err(
                                    (false, place_message("failed to parse source descriptor"@, e.path@, m)),
                                ),
                            },
                            Some(Err(m)) => Err(
                                (true, place_message("failed to read source descriptor"@, e.path@, m@)),
                            ),
                            None => Ok(found),
                        }
                    },
                }
            },
        }
    }
}

pub open spec fn designer_entries_view(v: Seq<DesignerExternalDescriptorEntry>) -> Seq<(Seq<char>, Option<SourceDescriptorPurpose>)> {
    v.map_values(|e: DesignerExternalDescriptorEntry| (e.path@, e.purpose))
}

/// `r` is the scan outcome (see [`designer_scan`]).
pub open spec fn designer_scan_is(
    dir: Seq<char>,
    listing: Result<Vec<DirEntryFacts>, String>,
    r: Result<Vec<DesignerExternalDescriptorEntry>, SourceSetRootScanError>,
) -> bool {
    match listing {
        Err(m) => r matches Err(SourceSetRootScanError::Runtime(x)) && x@ == place_message(
            "failed to read source directory"@,
            dir,
            m@,
        ),
        Ok(entries) => match designer_scan(dir, entries@) {
            Ok(found) => r matches Ok(v) && designer_entries_view(v@) == found,
            Err((true, m)) => r matches Err(SourceSetRootScanError::Runtime(x)) && x@ == m,
            Err((false, m)) => r matches Err(SourceSetRootScanError::Validation(x)) && x@ == m,
        },
    }
}

/// The tag that decides what a descriptor is, when its tokens read cleanly
/// to the end: the root element, or the first element inside a
/// `MetaDataObject` root.
pub open spec fn clean_root_tag(items: Seq<XmlItemView>) -> Option<Seq<char>> {
    let a = scan_acc(items);
    if a.error is None && !(a.depth > 0) {
        effective_tag_of(a)
    } else {
        None
    }
}

/// A descriptor read cleanly is external by its root tag alone: an
/// `ExternalDataProcessor` is an external data processor, an `ExternalReport`
/// an external report, and a `Configuration` is not external at all.
pub proof fn law_external_purpose_by_root_tag(items: Seq<XmlItemView>)
    ensures
        clean_root_tag(items) == Some("ExternalDataProcessor"@) ==> external_purpose_of(items) == Ok::<
            Option<SourceDescriptorPurpose>,
            Seq<char>,
        >(Some(SourceDescriptorPurpose::ExternalDataProcessors)),
        clean_root_tag(items) == Some("ExternalReport"@) ==> external_purpose_of(items) == Ok::<
            Option<SourceDescriptorPurpose>,
            Seq<char>,
        >(Some(SourceDescriptorPurpose::ExternalReports)),
        clean_root_tag(items) == Some("Configuration"@) ==> external_purpose_of(items) == Ok::<
            Option<SourceDescriptorPurpose>,
            Seq<char>,
        >(None),
{
    reveal_strlit("ExternalDataProcessor");
    reveal_strlit("ExternalReport");
    reveal_strlit("Configuration");
    assert("ExternalDataProcessor"@.len() != "Configuration"@.len());
    assert("ExternalReport"@.len() != "Configuration"@.len());
    assert("ExternalReport"@.len() != "ExternalDataProcessor"@.len());
}

/// The root tag of a directory entry that is a descriptor whose content was
/// read and reads cleanly.
pub open spec fn entry_root_tag(e: DirEntryFacts) -> Option<Seq<char>> {
    match e.kind {
        Ok(kind) => if is_descriptor_entry_spec(kind, e.path@) {
            match e.content {
                Some(Ok(c)) => clean_root_tag(xml_event_stream(c@)),
                _ => None,
            }
        } else {
            None
        },
        Err(_) => None,
    }
}

/// A successful scan of a Designer external root lists every external data
/// processor and every external report in it with that purpose, decided by
/// the descriptor's root tag.
pub proof fn law_designer_scan_lists_externals(dir: Seq<char>, entries: Seq<DirEntryFacts>)
    ensures
        designer_scan(dir, entries) matches Ok(found) ==> forall|k: int|
            0 <= k < entries.len() && #[trigger] entry_root_tag(entries[k]) == Some("ExternalDataProcessor"@)
                ==> found.contains((entries[k].path@, Some(SourceDescriptorPurpose::ExternalDataProcessors))),
        designer_scan(dir, entries) matches Ok(found) ==> forall|k: int|
            0 <= k < entries.len() && #[trigger] entry_root_tag(entries[k]) == Some("ExternalReport"@)
                ==> found.contains((entries[k].path@, Some(SourceDescriptorPurpose::ExternalReports))),
    decreases entries.len(),
{
    if entries.len() > 0 {
        let d = entries.drop_last();
        law_designer_scan_lists_externals(dir, d);
        if let Ok(found) = designer_scan(dir, entries) {
            let prev = designer_scan(dir, d)->Ok_0;
            assert(designer_scan(dir, d) is Ok);
            let e = entries.last();
            assert(found == prev || found == prev.push((e.path@, found.last().1)));
            assert forall|k: int|
                0 <= k < entries.len() && #[trigger] entry_root_tag(entries[k]) == Some("ExternalDataProcessor"@)
                    implies found.contains((entries[k].path@, Some(SourceDescriptorPurpose::ExternalDataProcessors))) by {
                if k < entries.len() - 1 {
                    assert(d[k] == entries[k]);
                    assert(entry_root_tag(d[k]) == Some("ExternalDataProcessor"@));
                    let t = choose|t: int| 0 <= t < prev.len() && prev[t] == (d[k].path@, Some(SourceDescriptorPurpose::ExternalDataProcessors));
                    if found != prev {
                        assert(found[t] == prev[t]);
                    }
                } else {
                    if let Some(Ok(c)) = e.content {
                        law_external_purpose_by_root_tag(xml_event_stream(c@));
                    }
                    assert(found[found.len() - 1] == (e.path@, Some(SourceDescriptorPurpose::ExternalDataProcessors)));
                }
            }
            assert forall|k: int|
                0 <= k < entries.len() && #[trigger] entry_root_tag(entries[k]) == Some("ExternalReport"@)
                    implies found.contains((entries[k].path@, Some(SourceDescriptorPurpose::ExternalReports))) by {
                if k < entries.len() - 1 {
                    assert(d[k] == entries[k]);
                    assert(entry_root_tag(d[k]) == Some("ExternalReport"@));
                    let t = choose|t: int| 0 <= t < prev.len() && prev[t] == (d[k].path@, Some(SourceDescriptorPurpose::ExternalReports));
                    if found != prev {
                        assert(found[t] == prev[t]);
                    }
                } else {
                    if let Some(Ok(c)) = e.content {
                        law_external_purpose_by_root_tag(xml_event_stream(c@));
                    }
                    assert(found[found.len() - 1] == (e.path@, Some(SourceDescriptorPurpose::ExternalReports)));
                }
            }
        }
    }
}

/// The external purpose of a descriptor, or the message of why it has none.
fn external_purpose(content: &str) -> (r: Result<Option<SourceDescriptorPurpose>, String>)
    ensures
        match r {
            Ok(p) => external_purpose_of(xml_event_stream(content@)) == Ok::<
                Option<SourceDescriptorPurpose>,
                Seq<char>,
            >(p),
            Err(m) => external_purpose_of(xml_event_stream(content@)) == Err::<
                Option<SourceDescriptorPurpose>,
                Seq<char>,
            >(m@),
        },
{
    match classify_source_descriptor(content) {
        Ok(Some(p)) => {
            if p.is_external() {
                Ok(Some(p))
            } else {
                Ok(None)
            }
        },
        Ok(None) => Ok(None),
        Err(SourceDescriptorParseError::Xml(m)) => Err(m),
        Err(SourceDescriptorParseError::UnexpectedEof) => Err(String::from_str("unexpected EOF")),
    }
}

/// Lists the external descriptors of a Designer root, from the directory
/// listing (or the failure to read it).
pub fn scan_designer_external_root(
    dir: &str,
    listing: Result<Vec<DirEntryFacts>, String>,
) -> (r: Result<Vec<DesignerExternalDescriptorEntry>, SourceSetRootScanError>)
    requires
        listing matches Ok(entries) ==> contents_given(entries@),
    ensures
        designer_scan_is(dir@, listing, r),
{
    let entries = match listing {
        Ok(e) => e,
        Err(m) => {
            return Err(
                SourceSetRootScanError::Runtime(
                    place_message_exec("failed to read source directory", dir, m.as_str()),
                ),
            );
        },
    };
    let ghost ev = entries@;
    let mut found: Vec<DesignerExternalDescriptorEntry> = Vec::new();
    let mut i: usize = 0;
    assert(designer_entries_view(found@) =~= Seq::<(Seq<char>, Option<SourceDescriptorPurpose>)>::empty());
    while i < entries.len()
        invariant
            i <= entries@.len(),
            ev == entries@,
            listing matches Ok(x) && x@ == ev,
            contents_given(ev),
            designer_scan(dir@, ev.take(i as int)) == Ok::<
                Seq<(Seq<char>, Option<SourceDescriptorPurpose>)>,
                (bool, Seq<char>),
            >(designer_entries_view(found@)),
        decreases entries@.len() - i,
    {
        let e = &entries[i];
        assert(ev.take(i + 1).drop_last() =~= ev.take(i as int));
        assert(ev.take(i + 1).last() == *e);
        let ghost before = designer_entries_view(found@);
        match &e.kind {
            Err(EntryFailure::Entry(m)) => {
                proof {
                    lemma_designer_err_sticks(dir@, ev, i as int + 1);
                }
                return Err(
                    SourceSetRootScanError::Runtime(
                        place_message_exec("failed to read source directory entry", dir, m.as_str()),
                    ),
                );
            },
            Err(EntryFailure::FileType(m)) => {
                proof {
                    lemma_designer_err_sticks(dir@, ev, i as int + 1);
                }
                return Err(
                    SourceSetRootScanError::Runtime(
                        place_message_exec("failed to inspect source directory entry", dir, m.as_str()),
                    ),
                );
            },
            Ok(kind) => {
                if is_descriptor_entry(kind, e.path.as_str()) {
                    match &e.content {
                        Some(Ok(c)) => match external_purpose(c.as_str()) {
                            Ok(p) => {
                                found.push(
                                    DesignerExternalDescriptorEntry { path: e.path.clone(), purpose: p },
                                );
                                assert(designer_entries_view(found@) =~= before.push((e.path@, p)));
                            },
                            Err(m) => {
                                proof {
                                    lemma_designer_err_sticks(dir@, ev, i as int + 1);
                                }
                                return Err(
                                    SourceSetRootScanError::Validation(
                                        place_message_exec(
                                            "failed to parse source descriptor",
                                            e.path.as_str(),
                                            m.as_str(),
                                        ),
                                    ),
                                );
                            },
                        },
                        Some(Err(m)) => {
                            proof {
                                lemma_designer_err_sticks(dir@, ev, i as int + 1);
                            }
                            return Err(
                                SourceSetRootScanError::Runtime(
                                    place_message_exec(
                                        "failed to read source descriptor",
                                        e.path.as_str(),
                                        m.as_str(),
                                    ),
                                ),
                            );
                        },
                        None => {},
                    }
                }
            },
        }
        i += 1;
    }
    assert(ev.take(entries@.len() as int) =~= ev);
    Ok(found)
}

/// Once the scan failed, later entries change nothing.
proof fn lemma_designer_err_sticks(dir: Seq<char>, entries: Seq<DirEntryFacts>, k: int)
    requires
        0 <= k <= entries.len(),
        designer_scan(dir, entries.take(k)) is Err,
    ensures
        designer_scan(dir, entries) == designer_scan(dir, entries.take(k)),
    decreases entries.len() - k,
{
    if k < entries.len() {
        assert(entries.take(k + 1).drop_last() =~= entries.take(k));
        lemma_designer_err_sticks(dir, entries, k + 1);
    } else {
        assert(entries.take(k) =~= entries);
    }
}

} // verus!
