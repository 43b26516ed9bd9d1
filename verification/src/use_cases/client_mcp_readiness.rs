//! Readiness of the Vanessa MCP endpoint of a launched test client: the
//! JSON-RPC answers it reads, the server-sent-event framing, and the polling
//! decisions. The HTTP exchange itself is carried out by the caller.

use vstd::prelude::*;

use crate::domain::launch::McpReadinessResult;
use crate::platform::process::strings_view;
use crate::support::text::{
    append_chars, append_str, chars_eq, chars_of, decimal, has_prefix, join_strings, join_with,
    slice_chars, split_chars, split_on, split_on_text, string_of, trim, trim_chars, u64_to_string,
    views_of,
};

verus! {

/// Pause between two readiness probes, in milliseconds.
pub const MCP_READY_POLL_INTERVAL_MS: u64 = 100;

/// Longest single HTTP request of a probe, in milliseconds.
pub const MCP_READY_REQUEST_TIMEOUT_MS: u64 = 300;

/// Longest session cleanup request, in milliseconds.
pub const MCP_READY_CLEANUP_TIMEOUT_MS: u64 = 300;

/// The tools a Vanessa MCP endpoint must offer.
pub open spec fn vanessa_tools_spec() -> Seq<Seq<char>> {
    seq![
        "load_features"@,
        "open_feature_file"@,
        "run_scenario"@,
        "get_test_results"@,
        "connect_test_client"@,
    ]
}

/// The tools a Vanessa MCP endpoint must offer.
pub fn vanessa_mcp_tools() -> (v: Vec<String>)
    ensures
        strings_view(v@) == vanessa_tools_spec(),
{
    let mut v: Vec<String> = Vec::new();
    v.push(String::from_str("load_features"));
    v.push(String::from_str("open_feature_file"));
    v.push(String::from_str("run_scenario"));
    v.push(String::from_str("get_test_results"));
    v.push(String::from_str("connect_test_client"));
    assert(strings_view(v@) =~= vanessa_tools_spec());
    v
}

/// The MCP endpoint of a local client listening on `port`.
pub fn endpoint_url(port: u16) -> (url: String)
    ensures
        url@ == "http://127.0.0.1:"@ + decimal(port as nat) + "/mcp"@,
{
    let mut out: Vec<char> = Vec::new();
    append_str(&mut out, "http://127.0.0.1:");
    let p = u64_to_string(port as u64);
    append_str(&mut out, p.as_str());
    append_str(&mut out, "/mcp");
    string_of(out.as_slice())
}

/// The required tools that `tools` lacks, in their order.
pub open spec fn missing_tools_spec(tools: Seq<Seq<char>>, required: Seq<Seq<char>>) -> Seq<Seq<char>>
    decreases required.len(),
{
    if required.len() == 0 {
        Seq::empty()
    } else {
        let prev = missing_tools_spec(tools, required.drop_last());
        if tools.contains(required.last()) {
            prev
        } else {
            prev.push(required.last())
        }
    }
}

fn contains_text(v: &Vec<String>, x: &String) -> (b: bool)
    ensures
        b == strings_view(v@).contains(x@),
{
    let ghost sv = strings_view(v@);
    let mut i: usize = 0;
    while i < v.len()
        invariant
            i <= v@.len(),
            sv == strings_view(v@),
            forall|j: int| 0 <= j < i ==> sv[j] != x@,
        decreases v@.len() - i,
    {
        assert(sv[i as int] == v@[i as int]@);
        if v[i] == *x {
            return true;
        }
        i += 1;
    }
    false
}

/// The required tools that `tools` lacks, in their order.
pub fn missing_required_tools(tools: &Vec<String>, required_tools: &Vec<String>) -> (m: Vec<String>)
    ensures
        strings_view(m@) == missing_tools_spec(strings_view(tools@), strings_view(required_tools@)),
{
    let ghost rv = strings_view(required_tools@);
    let mut m: Vec<String> = Vec::new();
    let mut i: usize = 0;
    assert(strings_view(m@) =~= missing_tools_spec(strings_view(tools@), rv.take(0)));
    while i < required_tools.len()
        invariant
            i <= required_tools@.len(),
            rv == strings_view(required_tools@),
            strings_view(m@) == missing_tools_spec(strings_view(tools@), rv.take(i as int)),
        decreases required_tools@.len() - i,
    {
        assert(rv.take(i + 1).drop_last() =~= rv.take(i as int));
        assert(rv[i as int] == required_tools@[i as int]@);
        if !contains_text(tools, &required_tools[i]) {
            let ghost before = strings_view(m@);
            m.push(required_tools[i].clone());
            assert(strings_view(m@) =~= before.push(rv[i as int]));
        }
        i += 1;
    }
    assert(rv.take(required_tools@.len() as int) =~= rv);
    m
}

/// A failed readiness result with the given missing tools.
pub fn readiness_failure_with_missing(
    url: &str,
    tools: Vec<String>,
    missing_tools: Vec<String>,
    message: String,
) -> (r: McpReadinessResult)
    ensures
        !r.ok,
        r.url@ == url@,
        r.tools == tools,
        r.missing_tools == missing_tools,
        r.message == Some(message),
{
    let cs = chars_of(url);
    McpReadinessResult {
        ok: false,
        url: string_of(cs.as_slice()),
        tools,
        missing_tools,
        message: Some(message),
    }
}

fn copy_strings(v: &Vec<String>) -> (r: Vec<String>)
    ensures
        strings_view(r@) == strings_view(v@),
{
    let mut out: Vec<String> = Vec::new();
    let mut i: usize = 0;
    while i < v.len()
        invariant
            i <= v@.len(),
            strings_view(out@) == strings_view(v@).take(i as int),
        decreases v@.len() - i,
    {
        let ghost before = strings_view(out@);
        out.push(v[i].clone());
        assert(strings_view(out@) =~= before.push(v@[i as int]@));
        assert(strings_view(v@).take(i + 1) =~= strings_view(v@).take(i as int).push(v@[i as int]@));
        i += 1;
    }
    assert(strings_view(v@).take(v@.len() as int) =~= strings_view(v@));
    out
}

/// A failed readiness result in which every required tool counts as missing.
pub fn readiness_failure(url: &str, tools: Vec<String>, required_tools: &Vec<String>, message: String) -> (r:
    McpReadinessResult)
    ensures
        !r.ok,
        r.url@ == url@,
        r.tools == tools,
        strings_view(r.missing_tools@) == strings_view(required_tools@),
        r.message == Some(message),
{
    readiness_failure_with_missing(url, tools, copy_strings(required_tools), message)
}

/// The time left for one request: none once the deadline has passed, else at
/// most [`MCP_READY_REQUEST_TIMEOUT_MS`].
pub fn remaining_request_timeout(remaining_ms: u64) -> (r: Result<u64, String>)
    ensures
        match r {
            Ok(t) => remaining_ms > 0 && t == (if remaining_ms < MCP_READY_REQUEST_TIMEOUT_MS {
                remaining_ms
            } else {
                MCP_READY_REQUEST_TIMEOUT_MS
            }),
            Err(m) => remaining_ms == 0 && m@ == "readiness deadline expired"@,
        },
{
    if remaining_ms == 0 {
        return Err(String::from_str("readiness deadline expired"));
    }
    if remaining_ms < MCP_READY_REQUEST_TIMEOUT_MS {
        Ok(remaining_ms)
    } else {
        Ok(MCP_READY_REQUEST_TIMEOUT_MS)
    }
}

/// How long to wait for readiness: the readiness timeout (at least one
/// millisecond), cut to the command's remaining budget when one is left.
pub fn readiness_wait_timeout(remaining_budget_ms: Option<u64>, readiness_timeout_ms: u64) -> (t: u64)
    ensures
        t == (match remaining_budget_ms {
            Some(b) => if b > 0 {
                if b < (if readiness_timeout_ms < 1 { 1 } else { readiness_timeout_ms }) {
                    b as int
                } else {
                    (if readiness_timeout_ms < 1 { 1 } else { readiness_timeout_ms }) as int
                }
            } else {
                (if readiness_timeout_ms < 1 { 1 } else { readiness_timeout_ms }) as int
            },
            None => (if readiness_timeout_ms < 1 { 1 } else { readiness_timeout_ms }) as int,
        }),
{
    let readiness = if readiness_timeout_ms < 1 {
        1
    } else {
        readiness_timeout_ms
    };
    match remaining_budget_ms {
        Some(b) => {
            if b > 0 {
                if b < readiness {
                    b
                } else {
                    readiness
                }
            } else {
                readiness
            }
        },
        None => readiness,
    }
}

/// A JSON number, held opaque.
#[verifier::external_type_specification]
#[verifier::external_body]
pub struct ExJsonNumber(serde_json::Number);

/// A JSON value, held opaque.
#[verifier::external_type_specification]
#[verifier::external_body]
pub struct ExJsonValue(serde_json::Value);

/// A JSON document.
#[derive(Debug)]
pub enum JsonValue {
    Null,
    Bool(bool),
    Number(serde_json::Number),
    Str(String),
    Array(Vec<JsonValue>),
    /// Members in the order `serde_json`'s map holds them (by key), each key once.
    Object(Vec<(String, JsonValue)>),
}

/// The JSON document that `serde_json::from_str` reads from `text`, if any.
pub uninterp spec fn json_document(text: Seq<char>) -> Option<JsonValue>;

/// The compact JSON text `serde_json` writes for a value.
pub uninterp spec fn json_text(v: JsonValue) -> Seq<char>;

/// Converts a `serde_json` value one for one.
#[verifier::external_body]
fn json_from_serde(v: &serde_json::Value) -> JsonValue {
    match v {
        serde_json::Value::Null => JsonValue::Null,
        serde_json::Value::Bool(b) => JsonValue::Bool(*b),
        serde_json::Value::Number(n) => JsonValue::Number(n.clone()),
        serde_json::Value::String(s) => JsonValue::Str(s.clone()),
        serde_json::Value::Array(a) => JsonValue::Array(a.iter().map(json_from_serde).collect()),
        serde_json::Value::Object(o) => JsonValue::Object(
            o.iter().map(|(k, x)| (k.clone(), json_from_serde(x))).collect(),
        ),
    }
}

/// Converts a value back to `serde_json`, one for one.
#[verifier::external_body]
fn json_to_serde(v: &JsonValue) -> serde_json::Value {
    match v {
        JsonValue::Null => serde_json::Value::Null,
        JsonValue::Bool(b) => serde_json::Value::Bool(*b),
        JsonValue::Number(n) => serde_json::Value::Number(n.clone()),
        JsonValue::Str(s) => serde_json::Value::String(s.clone()),
        JsonValue::Array(a) => serde_json::Value::Array(a.iter().map(json_to_serde).collect()),
        JsonValue::Object(o) => serde_json::Value::Object(
            o.iter().map(|(k, x)| (k.clone(), json_to_serde(x))).collect(),
        ),
    }
}

/// Reads a JSON document.
///
/// Calls `serde_json::from_str::<serde_json::Value>`. The contract claims
/// that the result is the document the name above gives for `text`; the
/// message of a failure is not stated.
#[verifier::external_body]
fn parse_json_value(text: &str) -> (r: Result<JsonValue, String>)
    ensures
        r matches Ok(v) ==> json_document(text@) == Some(v),
        r is Err ==> json_document(text@) is None,
{
    serde_json::from_str::<serde_json::Value>(text).map(|v| json_from_serde(&v)).map_err(|e| e.to_string())
}

/// The compact JSON text of a value.
///
/// Calls `serde_json::Value`'s `Display`. The contract claims that the text
/// is what the name above gives for the value.
#[verifier::external_body]
fn json_to_string(v: &JsonValue) -> (s: String)
    ensures
        s@ == json_text(*v),
{
    json_to_serde(v).to_string()
}

/// The member `key` of an object: the first with that key.
pub open spec fn member_of(members: Seq<(String, JsonValue)>, key: Seq<char>) -> Option<JsonValue>
    decreases members.len(),
{
    if members.len() == 0 {
        None
    } else if members[0].0@ == key {
        Some(members[0].1)
    } else {
        member_of(members.drop_first(), key)
    }
}

/// `Value::get` with a key: the member of an object, none otherwise.
pub open spec fn json_get_spec(v: JsonValue, key: Seq<char>) -> Option<JsonValue> {
    match v {
        JsonValue::Object(members) => member_of(members@, key),
        _ => None,
    }
}

/// The member `key` of an object value.
pub fn json_get<'a>(v: &'a JsonValue, key: &str) -> (r: Option<&'a JsonValue>)
    ensures
        match r {
            Some(x) => json_get_spec(*v, key@) == Some(*x),
            None => json_get_spec(*v, key@) is None,
        },
{
    match v {
        JsonValue::Object(members) => {
            let mut i: usize = 0;
            assert(members@.skip(0) =~= members@);
            while i < members.len()
                invariant
                    i <= members@.len(),
                    json_get_spec(*v, key@) == member_of(members@, key@),
                    member_of(members@, key@) == member_of(members@.skip(i as int), key@),
                decreases members@.len() - i,
            {
                assert(members@.skip(i as int)[0] == members@[i as int]);
                assert(members@.skip(i as int).drop_first() =~= members@.skip(i + 1));
                let k = chars_of(members[i].0.as_str());
                let want = chars_of(key);
                if chars_eq(k.as_slice(), want.as_slice()) {
                    return Some(&members[i].1);
                }
                i += 1;
            }
            None
        },
        _ => None,
    }
}

/// The names of the tools a `tools/list` answer offers: `result.tools`
/// must be an array; its members' string `name`s are listed in order.
pub open spec fn tool_names_of(items: Seq<JsonValue>) -> Seq<Seq<char>>
    decreases items.len(),
{
    if items.len() == 0 {
        Seq::empty()
    } else {
        let prev = tool_names_of(items.drop_last());
        match json_get_spec(items.last(), "name"@) {
            Some(JsonValue::Str(n)) => prev.push(n@),
            _ => prev,
        }
    }
}

/// The `result.tools` array of an answer, if it has one.
pub open spec fn result_tools(response: JsonValue) -> Option<Seq<JsonValue>> {
    match json_get_spec(response, "result"@) {
        Some(r) => match json_get_spec(r, "tools"@) {
            Some(JsonValue::Array(items)) => Some(items@),
            _ => None,
        },
        None => None,
    }
}

/// The names of the tools a `tools/list` answer offers.
pub fn extract_tool_names(response: &JsonValue) -> (r: Result<Vec<String>, String>)
    ensures
        match r {
            Ok(names) => result_tools(*response) matches Some(items) && strings_view(names@)
                == tool_names_of(items),
            Err(m) => result_tools(*response) is None && m@
                == "tools/list response does not contain result.tools"@,
        },
{
    let items = match json_get(response, "result") {
        Some(result) => match json_get(result, "tools") {
            Some(JsonValue::Array(items)) => items,
            _ => return Err(String::from_str("tools/list response does not contain result.tools")),
        },
        None => return Err(String::from_str("tools/list response does not contain result.tools")),
    };
    let mut names: Vec<String> = Vec::new();
    let mut i: usize = 0;
    assert(strings_view(names@) =~= tool_names_of(items@.take(0)));
    while i < items.len()
        invariant
            i <= items@.len(),
            strings_view(names@) == tool_names_of(items@.take(i as int)),
        decreases items@.len() - i,
    {
        assert(items@.take(i + 1).drop_last() =~= items@.take(i as int));
        assert(items@.take(i + 1).last() == items@[i as int]);
        match json_get(&items[i], "name") {
            Some(JsonValue::Str(n)) => {
                let ghost before = strings_view(names@);
                names.push(n.clone());
                assert(strings_view(names@) =~= before.push(n@));
            },
            _ => {},
        }
        i += 1;
    }
    assert(items@.take(items@.len() as int) =~= items@);
    Ok(names)
}

/// A character allowed in an HTTP header value (`http::HeaderValue::from_str`).
pub open spec fn header_char_ok(c: char) -> bool {
    c == '\t' || (' ' <= c && c != '\u{7f}')
}

/// Whether `s` can be sent as an HTTP header value.
pub fn is_valid_header_value(s: &str) -> (b: bool)
    ensures
        b == (forall|i: int| 0 <= i < s@.len() ==> header_char_ok(#[trigger] s@[i])),
{
    let cs = chars_of(s);
    let mut i: usize = 0;
    while i < cs.len()
        invariant
            i <= cs@.len(),
            cs@ == s@,
            forall|j: int| 0 <= j < i ==> header_char_ok(#[trigger] cs@[j]),
        decreases cs@.len() - i,
    {
        let c = cs[i];
        if !(c == '\t' || (' ' <= c && c != '\u{7f}')) {
            return false;
        }
        i += 1;
    }
    true
}

/// The newest MCP protocol version this client speaks.
///
/// Reads `rmcp::model::ProtocolVersion::LATEST`, which the brought version
/// of `rmcp` defines as `2025-11-25`.
#[verifier::external_body]
fn latest_protocol_version() -> (v: String)
    ensures
        v@ == "2025-11-25"@,
{
    rmcp::model::ProtocolVersion::LATEST.as_str().to_owned()
}

/// The protocol version an `initialize` answer settles on: its
/// `result.protocolVersion` string, else `latest`.
pub open spec fn negotiated_version_text(response: JsonValue, latest: Seq<char>) -> Seq<char> {
    match json_get_spec(response, "result"@) {
        Some(r) => match json_get_spec(r, "protocolVersion"@) {
            Some(JsonValue::Str(v)) => v@,
            _ => latest,
        },
        None => latest,
    }
}

/// What an `initialize` answer gives: its error, or the negotiated protocol
/// version when it can be sent as a header.
pub open spec fn initialize_outcome_is(response: JsonValue, latest: Seq<char>, r: Result<String, String>) -> bool {
    match json_get_spec(response, "error"@) {
        Some(e) => r matches Err(m) && m@ == "initialize failed: "@ + json_text(e),
        None => {
            let v = negotiated_version_text(response, latest);
            if forall|i: int| 0 <= i < v.len() ==> header_char_ok(#[trigger] v[i]) {
                r matches Ok(s) && s@ == v
            } else {
                r matches Err(m) && m@ == "invalid initialize protocolVersion: failed to parse header value"@
            }
        },
    }
}

/// The protocol version an `initialize` answer settles on, or why it cannot be used.
pub fn initialize_outcome(response: &JsonValue) -> (r: Result<String, String>)
    ensures
        initialize_outcome_is(*response, "2025-11-25"@, r),
{
    let latest_version = latest_protocol_version();
    let latest = latest_version.as_str();
    if let Some(e) = json_get(response, "error") {
        let mut out: Vec<char> = Vec::new();
        append_str(&mut out, "initialize failed: ");
        let t = json_to_string(e);
        append_str(&mut out, t.as_str());
        return Err(string_of(out.as_slice()));
    }
    let version = match json_get(response, "result") {
        Some(result) => match json_get(result, "protocolVersion") {
            Some(JsonValue::Str(v)) => v.clone(),
            _ => String::from_str(latest),
        },
        None => String::from_str(latest),
    };
    assert(version@ == negotiated_version_text(*response, latest@));
    assert(json_get_spec(*response, "error"@) is None);
    if is_valid_header_value(version.as_str()) {
        Ok(version)
    } else {
        Err(String::from_str("invalid initialize protocolVersion: failed to parse header value"))
    }
}

/// What a `tools/list` answer gives: its error, or the tool names.
pub fn tools_list_outcome(response: &JsonValue) -> (r: Result<Vec<String>, String>)
    ensures
        match json_get_spec(*response, "error"@) {
            Some(e) => r matches Err(m) && m@ == "tools/list failed: "@ + json_text(e),
            None => match r {
                Ok(names) => result_tools(*response) matches Some(items) && strings_view(names@)
                    == tool_names_of(items),
                Err(m) => result_tools(*response) is None && m@
                    == "tools/list response does not contain result.tools"@,
            },
        },
{
    if let Some(e) = json_get(response, "error") {
        let mut out: Vec<char> = Vec::new();
        append_str(&mut out, "tools/list failed: ");
        let t = json_to_string(e);
        append_str(&mut out, t.as_str());
        return Err(string_of(out.as_slice()));
    }
    extract_tool_names(response)
}

/// The message for an HTTP answer that is no success.
pub fn http_failure_message(status: &str, body: &str) -> (m: String)
    ensures
        m@ == "HTTP "@ + status@ + ": "@ + body@,
{
    let mut out: Vec<char> = Vec::new();
    append_str(&mut out, "HTTP ");
    append_str(&mut out, status);
    append_str(&mut out, ": ");
    append_str(&mut out, body);
    string_of(out.as_slice())
}

/// `s` contains `p` somewhere.
pub open spec fn contains_text_spec(s: Seq<char>, p: Seq<char>) -> bool {
    exists|i: int| 0 <= i && i + p.len() <= s.len() && #[trigger] s.subrange(i, i + p.len()) == p
}

/// Whether a `Content-Type` announces a server-sent event stream.
pub fn is_event_stream(content_type: Option<&str>) -> (b: bool)
    ensures
        b == (match content_type {
            Some(t) => contains_text_spec(t@, "text/event-stream"@),
            None => false,
        }),
{
    match content_type {
        Some(t) => {
            let s = chars_of(t);
            let p = chars_of("text/event-stream");
            let r = crate::support::text::contains_chars(s.as_slice(), p.as_slice());
            assert(r == contains_text_spec(t@, "text/event-stream"@)) by {
                if r {
                    let i = choose|i: int| crate::support::text::occurs_at(s@, p@, i);
                    assert(s@.subrange(i, i + p@.len()) == p@);
                }
                if contains_text_spec(t@, "text/event-stream"@) {
                    let i = choose|i: int| 0 <= i && i + p@.len() <= s@.len() && #[trigger] s@.subrange(i, i + p@.len()) == p@;
                    assert(crate::support::text::occurs_at(s@, p@, i));
                }
            }
            r
        },
        None => false,
    }
}

/// The first occurrence of `p` in `s` at or after `from`, as `position` over
/// `windows` finds it.
pub open spec fn byte_occurrence(s: Seq<u8>, p: Seq<u8>, from: int) -> Option<int>
    decreases s.len() - from,
{
    if from < 0 || from + p.len() > s.len() {
        None
    } else if s.subrange(from, from + p.len()) == p {
        Some(from)
    } else if from >= s.len() {
        None
    } else {
        byte_occurrence(s, p, from + 1)
    }
}

/// Where the first server-sent event ends: the earlier of a blank line
/// `\n\n` (separator of 2 bytes) and `\r\n\r\n` (4 bytes), the former on a tie.
pub open spec fn sse_bounds_spec(b: Seq<u8>) -> Option<(int, int)> {
    let lf = byte_occurrence(b, seq![10u8, 10u8], 0);
    let crlf = byte_occurrence(b, seq![13u8, 10u8, 13u8, 10u8], 0);
    match (lf, crlf) {
        (Some(l), Some(c)) => if l <= c {
            Some((l, 2))
        } else {
            Some((c, 4))
        },
        (Some(l), None) => Some((l, 2)),
        (None, Some(c)) => Some((c, 4)),
        (None, None) => None,
    }
}

/// The first position of `p` in `s`.
fn find_bytes(s: &[u8], p: &[u8]) -> (r: Option<usize>)
    requires
        p@.len() > 0,
    ensures
        match r {
            Some(i) => byte_occurrence(s@, p@, 0) == Some(i as int),
            None => byte_occurrence(s@, p@, 0) is None,
        },
{
    if p.len() > s.len() {
        return None;
    }
    let slen: usize = s.len();
    let last: usize = slen - p.len();
    let mut i: usize = 0;
    while i <= last
        invariant
            slen == s@.len(),
            p@.len() > 0,
            p@.len() <= s@.len(),
            last == s@.len() - p@.len(),
            i <= last + 1,
            byte_occurrence(s@, p@, 0) == byte_occurrence(s@, p@, i as int),
        decreases last + 1 - i,
    {
        let mut k: usize = 0;
        let mut ok = true;
        while k < p.len()
            invariant
                slen == s@.len(),
                i <= last,
                last == s@.len() - p@.len(),
                k <= p@.len(),
                ok == forall|j: int| 0 <= j < k ==> s@[i + j] == p@[j],
            decreases p@.len() - k,
        {
            if s[i + k] != p[k] {
                ok = false;
            }
            k += 1;
        }
        if ok {
            assert(s@.subrange(i as int, i + p@.len()) =~= p@);
            return Some(i);
        }
        assert(s@.subrange(i as int, i + p@.len()) != p@) by {
            let m = choose|m: int| 0 <= m < p@.len() && s@[i + m] != p@[m];
            assert(s@.subrange(i as int, i + p@.len())[m] == s@[i + m]);
        }
        i += 1;
    }
    None
}

/// Where the first complete server-sent event in `bytes` ends, and how long
/// its separator is.
pub fn sse_event_bounds(bytes: &[u8]) -> (r: Option<(usize, usize)>)
    ensures
        match r {
            Some((e, n)) => sse_bounds_spec(bytes@) == Some((e as int, n as int)),
            None => sse_bounds_spec(bytes@) is None,
        },
{
    let lf_pat: [u8; 2] = [10u8, 10u8];
    let crlf_pat: [u8; 4] = [13u8, 10u8, 13u8, 10u8];
    assert(lf_pat@ =~= seq![10u8, 10u8]);
    assert(crlf_pat@ =~= seq![13u8, 10u8, 13u8, 10u8]);
    let lf = find_bytes(bytes, &lf_pat);
    let crlf = find_bytes(bytes, &crlf_pat);
    match (lf, crlf) {
        (Some(l), Some(c)) => {
            if l <= c {
                Some((l, 2))
            } else {
                Some((c, 4))
            }
        },
        (Some(l), None) => Some((l, 2)),
        (None, Some(c)) => Some((c, 4)),
        (None, None) => None,
    }
}

/// The data lines of an event: each line starting with `data:`, the rest
/// trimmed, empty ones left out.
pub open spec fn data_lines(lines: Seq<Seq<char>>) -> Seq<Seq<char>>
    decreases lines.len(),
{
    if lines.len() == 0 {
        Seq::empty()
    } else {
        let prev = data_lines(lines.drop_last());
        let l = lines.last();
        if has_prefix(l, "data:"@) && trim(l.skip(5)).len() > 0 {
            prev.push(trim(l.skip(5)))
        } else {
            prev
        }
    }
}

/// The data of a server-sent event: its data lines joined by newlines, if any.
pub open spec fn sse_data(event: Seq<char>) -> Option<Seq<char>> {
    let d = join_with(data_lines(split_on(event, '\n')), "\n"@);
    if d.len() == 0 {
        None
    } else {
        Some(d)
    }
}

/// The data of a server-sent event (see [`sse_data`]).
pub fn sse_event_data(event: &str) -> (r: Option<String>)
    ensures
        match r {
            Some(d) => sse_data(event@) == Some(d@),
            None => sse_data(event@) is None,
        },
{
    proof {
        reveal_strlit("data:");
    }
    let cs = chars_of(event);
    let lines = split_chars(cs.as_slice(), '\n');
    let ghost lv = views_of(lines@);
    let prefix = chars_of("data:");
    let mut data: Vec<Vec<char>> = Vec::new();
    let mut i: usize = 0;
    assert(views_of(data@) =~= data_lines(lv.take(0)));
    while i < lines.len()
        invariant
            i <= lines@.len(),
            lv == views_of(lines@),
            prefix@ == "data:"@,
            prefix@.len() == 5,
            views_of(data@) == data_lines(lv.take(i as int)),
        decreases lines@.len() - i,
    {
        assert(lv.take(i + 1).drop_last() =~= lv.take(i as int));
        assert(lv[i as int] == lines@[i as int]@);
        let line = &lines[i];
        if crate::support::text::starts_with_chars(line.as_slice(), prefix.as_slice()) {
            let rest = slice_chars(line.as_slice(), 5, line.len());
            assert(rest@ =~= line@.skip(5));
            let t = trim_chars(rest.as_slice());
            if t.len() > 0 {
                let ghost before = views_of(data@);
                data.push(t);
                assert(views_of(data@) =~= before.push(trim(lv[i as int].skip(5))));
            }
        }
        i += 1;
    }
    assert(lv.take(lines@.len() as int) =~= lv);
    let nl: [char; 1] = ['\n'];
    assert(nl@ =~= "\n"@) by {
        reveal_strlit("\n");
    }
    let joined = crate::support::path::join_parts(&data, &nl);
    if joined.len() == 0 {
        None
    } else {
        Some(string_of(joined.as_slice()))
    }
}

/// The data of the first non-blank event that has data.
pub open spec fn first_event_data(events: Seq<Seq<char>>) -> Option<Seq<char>>
    decreases events.len(),
{
    if events.len() == 0 {
        None
    } else if trim(events[0]).len() > 0 && sse_data(events[0]) is Some {
        sse_data(events[0])
    } else {
        first_event_data(events.drop_first())
    }
}

/// What an answer body gives: a JSON document, or else the JSON data of its
/// first server-sent event that has data; the message of a failure is not stated.
pub open spec fn body_value_is(body: Seq<char>, r: Result<JsonValue, String>) -> bool {
    match json_document(body) {
        Some(v) => r matches Ok(x) && x == v,
        None => match first_event_data(split_on_text(body, "\n\n"@)) {
            Some(d) => match json_document(d) {
                Some(v) => r matches Ok(x) && x == v,
                None => r is Err,
            },
            None => r is Err,
        },
    }
}

/// Reads an answer body as JSON, or as server-sent events carrying JSON.
pub fn parse_json_or_sse(body: &str) -> (r: Result<JsonValue, String>)
    ensures
        body_value_is(body@, r),
{
    let json_error = match parse_json_value(body) {
        Ok(v) => return Ok(v),
        Err(e) => e,
    };
    let cs = chars_of(body);
    let sep: [char; 2] = ['\n', '\n'];
    assert(sep@ =~= "\n\n"@) by {
        reveal_strlit("\n\n");
    }
    let events = crate::support::text::split_text(cs.as_slice(), &sep);
    let ghost ev = views_of(events@);
    let mut i: usize = 0;
    assert(ev.skip(0) =~= ev);
    while i < events.len()
        invariant
            i <= events@.len(),
            ev == views_of(events@),
            ev == split_on_text(body@, "\n\n"@),
            json_document(body@) is None,
            first_event_data(ev) == first_event_data(ev.skip(i as int)),
        decreases events@.len() - i,
    {
        assert(ev.skip(i as int)[0] == ev[i as int]);
        assert(ev.skip(i as int).drop_first() =~= ev.skip(i + 1));
        assert(ev[i as int] == events@[i as int]@);
        let t = trim_chars(events[i].as_slice());
        if t.len() > 0 {
            let e = string_of(events[i].as_slice());
            if let Some(data) = sse_event_data(e.as_str()) {
                return parse_json_value(data.as_str());
            }
        }
        i += 1;
    }
    Err(json_error)
}

/// The polling state of a readiness wait.
#[derive(Debug, Clone)]
pub struct ReadinessState {
    pub url: String,
    pub required: Vec<String>,
    pub last_message: String,
    pub last_tools: Vec<String>,
    pub last_missing: Vec<String>,
    /// An MCP session is open.
    pub has_session: bool,
}

/// What happened since the last decision.
#[derive(Debug)]
pub enum ReadinessEvent {
    /// A new round: the interruption message if the command was interrupted,
    /// and whether the readiness deadline has passed.
    Tick { interruption: Option<String>, deadline_passed: bool },
    /// The outcome of opening a session (`initialize` and its notification).
    Initialized(Result<(), String>),
    /// The outcome of `tools/list` on the open session.
    Listed(Result<Vec<String>, String>),
}

/// What to do next.
#[derive(Debug)]
pub enum ReadinessAction {
    /// Open a session, then report `Initialized`.
    InitializeSession,
    /// List the tools of the open session, then report `Listed`.
    ListTools,
    /// Close the open session if asked, wait for the next round, then report `Tick`.
    Wait { close_session: bool },
    /// Close the open session if asked and stop with this outcome.
    Finish { close_session: bool, outcome: Result<McpReadinessResult, McpReadinessResult> },
}

/// `r` reports failure at `url` with these tools, missing tools and message.
pub open spec fn failure_is(
    r: McpReadinessResult,
    url: Seq<char>,
    tools: Seq<Seq<char>>,
    missing: Seq<Seq<char>>,
    message: Seq<char>,
) -> bool {
    &&& !r.ok
    &&& r.url@ == url
    &&& strings_view(r.tools@) == tools
    &&& strings_view(r.missing_tools@) == missing
    &&& r.message matches Some(m) && m@ == message
}

/// The message for a probe that failed at `url`.
pub open spec fn not_ready_message(url: Seq<char>, detail: Seq<char>) -> Seq<char> {
    "MCP endpoint did not become ready at "@ + url + ": "@ + detail
}

fn not_ready_message_exec(url: &str, detail: &str) -> (m: String)
    ensures
        m@ == not_ready_message(url@, detail@),
{
    let mut out: Vec<char> = Vec::new();
    append_str(&mut out, "MCP endpoint did not become ready at ");
    append_str(&mut out, url);
    append_str(&mut out, ": ");
    append_str(&mut out, detail);
    string_of(out.as_slice())
}

impl ReadinessState {
    /// A wait for the `required` tools at `url`, before any probe.
    pub fn new(url: &str, required: &Vec<String>) -> (s: Self)
        ensures
            s.url@ == url@,
            strings_view(s.required@) == strings_view(required@),
            s.last_message@ == "MCP endpoint did not become ready"@,
            s.last_tools@.len() == 0,
            strings_view(s.last_missing@) == strings_view(required@),
            !s.has_session,
    {
        let cs = chars_of(url);
        ReadinessState {
            url: string_of(cs.as_slice()),
            required: copy_strings(required),
            last_message: String::from_str("MCP endpoint did not become ready"),
            last_tools: Vec::new(),
            last_missing: copy_strings(required),
            has_session: false,
        }
    }

    /// Decides the next step of the wait from what just happened.
    pub fn step(&mut self, event: ReadinessEvent) -> (action: ReadinessAction)
        ensures
            final(self).url@ == old(self).url@,
            strings_view(final(self).required@) == strings_view(old(self).required@),
            match event {
                ReadinessEvent::Tick { interruption: Some(m), .. } => action matches ReadinessAction::Finish {
                    close_session,
                    outcome: Err(r),
                } && close_session == old(self).has_session && failure_is(
                    r,
                    old(self).url@,
                    strings_view(old(self).last_tools@),
                    strings_view(old(self).last_missing@),
                    m@ + " while waiting for MCP readiness"@,
                ) && !final(self).has_session,
                ReadinessEvent::Tick { interruption: None, deadline_passed: true } => action matches ReadinessAction::Finish {
                    close_session,
                    outcome: Err(r),
                } && close_session == old(self).has_session && failure_is(
                    r,
                    old(self).url@,
                    strings_view(old(self).last_tools@),
                    strings_view(old(self).last_missing@),
                    old(self).last_message@,
                ) && !final(self).has_session,
                ReadinessEvent::Tick { interruption: None, deadline_passed: false } => (if old(self).has_session {
                    action is ListTools
                } else {
                    action is InitializeSession
                }) && final(self).has_session == old(self).has_session && final(self).last_message@
                    == old(self).last_message@ && strings_view(final(self).last_tools@) == strings_view(
                    old(self).last_tools@,
                ) && strings_view(final(self).last_missing@) == strings_view(old(self).last_missing@),
                ReadinessEvent::Initialized(Ok(())) => action is ListTools && final(self).has_session,
                ReadinessEvent::Initialized(Err(m)) => action matches ReadinessAction::Wait {
                    close_session,
                } && !close_session && !final(self).has_session && final(self).last_message@
                    == not_ready_message(old(self).url@, m@) && final(self).last_tools@.len() == 0
                    && strings_view(final(self).last_missing@) == strings_view(old(self).required@),
                ReadinessEvent::Listed(Ok(tools)) => {
                    let missing = missing_tools_spec(strings_view(tools@), strings_view(old(self).required@));
                    if missing.len() == 0 {
                        action matches ReadinessAction::Finish { close_session, outcome: Ok(r) }
                            && close_session == old(self).has_session && r.ok && r.url@ == old(self).url@
                            && strings_view(r.tools@) == strings_view(tools@) && r.missing_tools@.len() == 0
                            && (r.message matches Some(m) && m@ == "MCP endpoint is ready"@)
                            && !final(self).has_session
                    } else {
                        action matches ReadinessAction::Wait { close_session } && !close_session
                            && final(self).has_session == old(self).has_session && final(self).last_message@
                            == "Vanessa MCP tools were not registered: missing "@ + join_with(missing, ", "@)
                            && strings_view(final(self).last_tools@) == strings_view(tools@) && strings_view(
                            final(self).last_missing@,
                        ) == missing
                    }
                },
                ReadinessEvent::Listed(Err(m)) => action matches ReadinessAction::Wait { close_session }
                    && close_session == old(self).has_session && !final(self).has_session
                    && final(self).last_message@ == not_ready_message(old(self).url@, m@)
                    && final(self).last_tools@.len() == 0 && strings_view(final(self).last_missing@)
                    == strings_view(old(self).required@),
            },
    {
        match event {
            ReadinessEvent::Tick { interruption, deadline_passed } => {
                match interruption {
                    Some(m) => {
                        let mut msg: Vec<char> = Vec::new();
                        append_str(&mut msg, m.as_str());
                        append_str(&mut msg, " while waiting for MCP readiness");
                        let close = self.has_session;
                        self.has_session = false;
                        let r = readiness_failure_with_missing(
                            self.url.as_str(),
                            copy_strings(&self.last_tools),
                            copy_strings(&self.last_missing),
                            string_of(msg.as_slice()),
                        );
                        ReadinessAction::Finish { close_session: close, outcome: Err(r) }
                    },
                    None => {
                        if deadline_passed {
                            let close = self.has_session;
                            self.has_session = false;
                            let r = readiness_failure_with_missing(
                                self.url.as_str(),
                                copy_strings(&self.last_tools),
                                copy_strings(&self.last_missing),
                                self.last_message.clone(),
                            );
                            ReadinessAction::Finish { close_session: close, outcome: Err(r) }
                        } else if self.has_session {
                            ReadinessAction::ListTools
                        } else {
                            ReadinessAction::InitializeSession
                        }
                    },
                }
            },
            ReadinessEvent::Initialized(Ok(())) => {
                self.has_session = true;
                ReadinessAction::ListTools
            },
            ReadinessEvent::Initialized(Err(m)) => {
                self.last_message = not_ready_message_exec(self.url.as_str(), m.as_str());
                self.last_tools = Vec::new();
                self.last_missing = copy_strings(&self.required);
                self.has_session = false;
                ReadinessAction::Wait { close_session: false }
            },
            ReadinessEvent::Listed(Ok(tools)) => {
                let missing = missing_required_tools(&tools, &self.required);
                if missing.len() == 0 {
                    let close = self.has_session;
                    self.has_session = false;
                    let cs = chars_of(self.url.as_str());
                    let r = McpReadinessResult {
                        ok: true,
                        url: string_of(cs.as_slice()),
                        tools,
                        missing_tools: Vec::new(),
                        message: Some(String::from_str("MCP endpoint is ready")),
                    };
                    ReadinessAction::Finish { close_session: close, outcome: Ok(r) }
                } else {
                    let joined = join_strings(&missing, ", ");
                    assert(missing.deep_view() =~= strings_view(missing@));
                    let mut msg: Vec<char> = Vec::new();
                    append_str(&mut msg, "Vanessa MCP tools were not registered: missing ");
                    append_str(&mut msg, joined.as_str());
                    self.last_message = string_of(msg.as_slice());
                    self.last_tools = tools;
                    self.last_missing = missing;
                    ReadinessAction::Wait { close_session: false }
                }
            },
            ReadinessEvent::Listed(Err(m)) => {
                let close = self.has_session;
                self.last_message = not_ready_message_exec(self.url.as_str(), m.as_str());
                self.last_tools = Vec::new();
                self.last_missing = copy_strings(&self.required);
                self.has_session = false;
                ReadinessAction::Wait { close_session: close }
            },
        }
    }
}

} // verus!
