use vstd::prelude::*;
use vstd::string::StrSliceExecFns;
use vstd::string::StringExecFns;

use crate::errors::ProtocolError;
use crate::text::dec_chars;
use crate::text::digit_char;
use crate::text::push_dec_chars;

verus! {

/// `serde_json::Value` carries JSON payloads through the bridge.  The
/// bridge never looks inside a payload; responses are taken apart with
/// the accessors declared below, whose results are pinned to the
/// named functions that follow.
#[verifier::external_type_specification]
#[verifier::external_body]
pub struct ExValue(serde_json::Value);

/// What a JSON value holds under an object key, absent when the key
/// is missing or the value is no object.  Named: serde_json computes
/// it from the value and the key alone.
pub uninterp spec fn value_member(v: serde_json::Value, key: Seq<char>) -> Option<
    serde_json::Value,
>;

/// The character content of a JSON string value, absent for every
/// other kind of value.
pub uninterp spec fn value_str(v: serde_json::Value) -> Option<Seq<char>>;

/// The number held by a JSON integer that fits a `u64`, else absent.
pub uninterp spec fn value_u64(v: serde_json::Value) -> Option<u64>;

/// The number held by a JSON integer that fits an `i64`, else absent.
pub uninterp spec fn value_i64(v: serde_json::Value) -> Option<i64>;

/// The elements of a JSON array value, absent for every other kind.
pub uninterp spec fn value_elements(v: serde_json::Value) -> Option<Seq<serde_json::Value>>;

/// Whether a JSON value is `null`.
pub uninterp spec fn value_is_null(v: serde_json::Value) -> bool;

/// The document a byte string parses to, absent when the bytes are
/// not one valid JSON document.
pub uninterp spec fn json_doc(bytes: Seq<u8>) -> Option<serde_json::Value>;

/// Relies on `serde_json::Value::get`: the member of an object under
/// a string key, `None` when the key is absent or the value is no
/// object.
#[verifier::external_body]
pub(crate) fn value_get<'a>(v: &'a serde_json::Value, key: &str) -> (r: Option<
    &'a serde_json::Value,
>)
    ensures
        r matches Some(x) ==> value_member(*v, key@) == Some(*x),
        r is None ==> value_member(*v, key@) is None,
{
    v.get(key)
}

/// Relies on `serde_json::Value::as_str`: the borrowed string when the
/// value is a JSON string, `None` otherwise.
pub assume_specification<'a>[ serde_json::Value::as_str ](v: &'a serde_json::Value) -> (r: Option<
    &'a str,
>)
    ensures
        r matches Some(s) ==> value_str(*v) == Some(s@),
        r is None ==> value_str(*v) is None,
;

/// Relies on `serde_json::Value::as_u64`: the number when the value is
/// an integer representable as `u64`, `None` otherwise.
pub assume_specification[ serde_json::Value::as_u64 ](v: &serde_json::Value) -> (r: Option<u64>)
    ensures
        r == value_u64(*v),
;

/// Relies on `serde_json::Value::as_i64`: the number when the value is
/// an integer representable as `i64`, `None` otherwise.
pub assume_specification[ serde_json::Value::as_i64 ](v: &serde_json::Value) -> (r: Option<i64>)
    ensures
        r == value_i64(*v),
;

/// Relies on `serde_json::Value::as_array`: the element vector when
/// the value is a JSON array, `None` otherwise.
pub assume_specification<'a>[ serde_json::Value::as_array ](v: &'a serde_json::Value) -> (r:
    Option<&'a Vec<serde_json::Value>>)
    ensures
        r matches Some(a) ==> value_elements(*v) == Some(a@),
        r is None ==> value_elements(*v) is None,
;

/// Relies on `serde_json::Value::is_null`: whether the value is JSON
/// `null`.
pub assume_specification[ serde_json::Value::is_null ](v: &serde_json::Value) -> (r: bool)
    ensures
        r == value_is_null(*v),
;

/// Relies on the derived `Clone` of `serde_json::Value`: a deep copy,
/// equal to its source.
pub assume_specification[ <serde_json::Value as Clone>::clone ](v: &serde_json::Value) -> (r:
    serde_json::Value)
    ensures
        r == *v,
;

/// Relies on `serde_json::from_slice`: parses one JSON document from
/// UTF-8 bytes, succeeding exactly when the bytes are valid JSON (the
/// parse depends on the bytes alone).  The error case carries the
/// parser's message.
#[verifier::external_body]
fn parse_json_bytes(body: &[u8]) -> (r: Result<serde_json::Value, String>)
    ensures
        r matches Ok(v) ==> json_doc(body@) == Some(v),
        r is Err <==> json_doc(body@) is None,
{
    match serde_json::from_slice::<serde_json::Value>(body) {
        Ok(v) => Ok(v),
        Err(e) => Err(e.to_string()),
    }
}

/// An outgoing JSON-RPC 2.0 request or notification.  A notification
/// is a request without an id.  The parameter object, when present, is
/// carried as already-encoded JSON text and embedded verbatim.
#[derive(Debug, Clone)]
pub struct Request {
    pub jsonrpc: String,
    pub id: Option<u64>,
    pub method: String,
    pub params: Option<String>,
}

/// An incoming JSON-RPC 2.0 response.
#[derive(Debug)]
pub struct Response {
    pub jsonrpc: String,
    pub id: Option<u64>,
    pub result: Option<serde_json::Value>,
    pub error: Option<ResponseError>,
}

/// The error object of a JSON-RPC response.
#[derive(Debug)]
pub struct ResponseError {
    pub code: i32,
    pub message: String,
    pub data: Option<serde_json::Value>,
}

impl Request {
    /// A request that expects a response under the given id.
    pub fn new(id: u64, method: &str, params: Option<String>) -> (r: Request)
        ensures
            r.jsonrpc@ == "2.0"@,
            r.id == Some(id),
            r.method@ == method@,
            r.params == params,
    {
        Request {
            jsonrpc: String::from_str("2.0"),
            id: Some(id),
            method: method.to_owned(),
            params,
        }
    }

    /// A notification: no id, so no response will ever match it.
    pub fn notification(method: &str, params: Option<String>) -> (r: Request)
        ensures
            r.jsonrpc@ == "2.0"@,
            r.id is None,
            r.method@ == method@,
            r.params == params,
    {
        Request { jsonrpc: String::from_str("2.0"), id: None, method: method.to_owned(), params }
    }
}

pub open spec fn hex_char(d: int) -> char {
    if d < 10 {
        digit_char(d)
    } else if d == 10 {
        'a'
    } else if d == 11 {
        'b'
    } else if d == 12 {
        'c'
    } else if d == 13 {
        'd'
    } else if d == 14 {
        'e'
    } else {
        'f'
    }
}

/// How one character appears inside a JSON string literal: quotes and
/// backslashes are escaped, control characters take the `\u00XX` form,
/// everything else stands for itself.
pub open spec fn esc_char(c: char) -> Seq<char> {
    if c == '"' {
        seq!['\\', '"']
    } else if c == '\\' {
        seq!['\\', '\\']
    } else if (c as u32) < 0x20 {
        seq!['\\', 'u', '0', '0', hex_char((c as u32) as int / 16), hex_char((c as u32) as int % 16)]
    } else {
        seq![c]
    }
}

/// The body of a JSON string literal holding the characters of `s`.
pub open spec fn json_escape_spec(s: Seq<char>) -> Seq<char>
    decreases s.len(),
{
    if s.len() == 0 {
        Seq::empty()
    } else {
        esc_char(s[0]) + json_escape_spec(s.skip(1))
    }
}

proof fn lemma_esc_snoc(s: Seq<char>)
    requires
        s.len() > 0,
    ensures
        json_escape_spec(s) == json_escape_spec(s.drop_last()) + esc_char(s.last()),
    decreases s.len(),
{
    if s.len() == 1 {
        assert(s.drop_last() =~= Seq::<char>::empty());
        assert(s.skip(1) =~= Seq::<char>::empty());
        assert(json_escape_spec(s) =~= json_escape_spec(s.drop_last()) + esc_char(s.last()));
    } else {
        lemma_esc_snoc(s.skip(1));
        assert(s.skip(1).drop_last() =~= s.drop_last().skip(1));
        assert(s.skip(1).last() == s.last());
        assert(s.drop_last()[0] == s[0]);
        assert(json_escape_spec(s) =~= json_escape_spec(s.drop_last()) + esc_char(s.last()));
    }
}

fn hex_str(d: u32) -> (r: &'static str)
    requires
        d < 16,
    ensures
        r@ == seq![hex_char(d as int)],
{
    proof {
        reveal_strlit("0");
        reveal_strlit("1");
        reveal_strlit("2");
        reveal_strlit("3");
        reveal_strlit("4");
        reveal_strlit("5");
        reveal_strlit("6");
        reveal_strlit("7");
        reveal_strlit("8");
        reveal_strlit("9");
        reveal_strlit("a");
        reveal_strlit("b");
        reveal_strlit("c");
        reveal_strlit("d");
        reveal_strlit("e");
        reveal_strlit("f");
    }
    if d == 0 { "0" }
    else if d == 1 { "1" }
    else if d == 2 { "2" }
    else if d == 3 { "3" }
    else if d == 4 { "4" }
    else if d == 5 { "5" }
    else if d == 6 { "6" }
    else if d == 7 { "7" }
    else if d == 8 { "8" }
    else if d == 9 { "9" }
    else if d == 10 { "a" }
    else if d == 11 { "b" }
    else if d == 12 { "c" }
    else if d == 13 { "d" }
    else if d == 14 { "e" }
    else { "f" }
}

/// Appends `s` to `out` in JSON string-literal form.
pub(crate) fn push_json_escaped(s: &str, out: &mut String)
    ensures
        final(out)@ == old(out)@ + json_escape_spec(s@),
{
    let len = s.unicode_len();
    let mut i: usize = 0;
    proof {
        assert(s@.take(0) =~= Seq::<char>::empty());
    }
    while i < len
        invariant
            len == s@.len(),
            0 <= i <= len,
            out@ == old(out)@ + json_escape_spec(s@.take(i as int)),
        decreases len - i,
    {
        let c = s.get_char(i);
        if c == '"' {
            proof {
                reveal_strlit("\\\"");
            }
            out.append("\\\"");
        } else if c == '\\' {
            proof {
                reveal_strlit("\\\\");
            }
            out.append("\\\\");
        } else if (c as u32) < 0x20 {
            proof {
                reveal_strlit("\\u00");
            }
            out.append("\\u00");
            let x = c as u32;
            out.append(hex_str(x / 16));
            out.append(hex_str(x % 16));
        } else {
            let piece = s.substring_char(i, i + 1);
            assert(piece@ =~= seq![s@[i as int]]);
            out.append(piece);
        }
        proof {
            lemma_esc_snoc(s@.take(i as int + 1));
            assert(s@.take(i as int + 1).drop_last() =~= s@.take(i as int));
            assert(s@.take(i as int + 1).last() == s@[i as int]);
            assert(out@ =~= old(out)@ + json_escape_spec(s@.take(i as int + 1)));
        }
        i = i + 1;
    }
    proof {
        assert(s@.take(len as int) =~= s@);
    }
}

/// The JSON text of a request: object with `jsonrpc`, then `id` when
/// present, then `method`, then `params` when present.
pub open spec fn render_spec(req: Request) -> Seq<char> {
    "{\"jsonrpc\":"@ + json_string_spec(req.jsonrpc@) + (match req.id {
        Some(n) => ",\"id\":"@ + dec_chars(n as nat),
        None => Seq::<char>::empty(),
    }) + ",\"method\":\""@ + json_escape_spec(req.method@) + "\""@ + (match req.params {
        Some(p) => ",\"params\":"@ + p@,
        None => Seq::<char>::empty(),
    }) + "}"@
}

/// A JSON string literal holding the characters of `s`.
pub open spec fn json_string_spec(s: Seq<char>) -> Seq<char> {
    "\""@ + json_escape_spec(s) + "\""@
}

/// Appends `s` to `out` as a JSON string literal.
pub(crate) fn push_json_string(s: &str, out: &mut String)
    ensures
        final(out)@ == old(out)@ + json_string_spec(s@),
{
    out.append("\"");
    push_json_escaped(s, out);
    out.append("\"");
    proof {
        assert(out@ =~= old(out)@ + json_string_spec(s@));
    }
}

/// Encodes a request as JSON-RPC 2.0 text.
pub fn render_request(req: &Request) -> (s: String)
    ensures
        s@ == render_spec(*req),
{
    let mut out = String::new();
    out.append("{\"jsonrpc\":");
    push_json_string(req.jsonrpc.as_str(), &mut out);
    match req.id {
        Some(n) => {
            out.append(",\"id\":");
            push_dec_chars(n, &mut out);
        },
        None => {},
    }
    out.append(",\"method\":\"");
    push_json_escaped(req.method.as_str(), &mut out);
    out.append("\"");
    match &req.params {
        Some(p) => {
            out.append(",\"params\":");
            out.append(p.as_str());
        },
        None => {},
    }
    out.append("}");
    proof {
        assert(out@ =~= render_spec(*req));
    }
    out
}

fn invalid(msg: &str) -> (r: ProtocolError)
    ensures
        r matches ProtocolError::InvalidJsonRpc(m) && m@ == msg@,
{
    ProtocolError::InvalidJsonRpc(msg.to_owned())
}

/// A member that is present and not JSON `null`; a null member counts
/// as absent throughout the protocol.
pub open spec fn doc_field(v: serde_json::Value, key: Seq<char>) -> Option<serde_json::Value> {
    match value_member(v, key) {
        Some(x) => if value_is_null(x) {
            None
        } else {
            Some(x)
        },
        None => None,
    }
}

/// Whether a document's `error` member has the shape of a JSON-RPC
/// error object: an integer code that fits an `i32`, and a string
/// message.
pub open spec fn wf_error_doc(e: serde_json::Value) -> bool {
    &&& (value_member(e, "code"@) matches Some(c) && (value_i64(c) matches Some(n) && i32::MIN <= n
        <= i32::MAX))
    &&& (value_member(e, "message"@) matches Some(m) && value_str(m) is Some)
}

/// Whether a document has the shape of a JSON-RPC response: a string
/// `jsonrpc` member; `id`, when present and not null, an unsigned
/// integer; `error`, when present and not null, a well-formed error
/// object.
pub open spec fn wf_response_doc(v: serde_json::Value) -> bool {
    &&& (value_member(v, "jsonrpc"@) matches Some(j) && value_str(j) is Some)
    &&& (doc_field(v, "id"@) matches Some(x) ==> value_u64(x) is Some)
    &&& (doc_field(v, "error"@) matches Some(e) ==> wf_error_doc(e))
}

/// Field-by-field agreement of a decoded error object with the
/// document member it came from.
pub open spec fn error_matches_doc(re: ResponseError, e: serde_json::Value) -> bool {
    &&& (value_member(e, "code"@) matches Some(c) && value_i64(c) == Some(re.code as i64))
    &&& (value_member(e, "message"@) matches Some(m) && value_str(m) == Some(re.message@))
    &&& re.data == doc_field(e, "data"@)
}

/// Field-by-field agreement of a decoded response with the document
/// it came from: the id and the result are the non-null members, and
/// the error is decoded member for member.
pub open spec fn response_matches_doc(resp: Response, v: serde_json::Value) -> bool {
    &&& (value_member(v, "jsonrpc"@) matches Some(j) && value_str(j) == Some(resp.jsonrpc@))
    &&& (match doc_field(v, "id"@) {
        Some(x) => resp.id == value_u64(x),
        None => resp.id is None,
    })
    &&& resp.result == doc_field(v, "result"@)
    &&& (match doc_field(v, "error"@) {
        Some(e) => resp.error matches Some(re) && error_matches_doc(re, e),
        None => resp.error is None,
    })
}

/// Takes a parsed JSON document apart as a JSON-RPC response: it
/// succeeds exactly on well-shaped documents, its fields agree with
/// the document's members, and every rejection is an `InvalidJsonRpc`.
pub fn decode_response(v: &serde_json::Value) -> (r: Result<Response, ProtocolError>)
    ensures
        r is Ok <==> wf_response_doc(*v),
        r matches Ok(resp) ==> response_matches_doc(resp, *v),
        r matches Err(e) ==> e is InvalidJsonRpc,
{
    let jsonrpc: String = match value_get(v, "jsonrpc") {
        Some(x) => match x.as_str() {
            Some(s) => s.to_owned(),
            None => {
                return Err(invalid("jsonrpc field is not a string"));
            },
        },
        None => {
            return Err(invalid("missing jsonrpc field"));
        },
    };
    let id: Option<u64> = match value_get(v, "id") {
        Some(x) => {
            if x.is_null() {
                None
            } else {
                match x.as_u64() {
                    Some(n) => Some(n),
                    None => {
                        return Err(invalid("id is not an unsigned integer"));
                    },
                }
            }
        },
        None => None,
    };
    let error: Option<ResponseError> = match value_get(v, "error") {
        Some(e) => {
            if e.is_null() {
                None
            } else {
                let code64: i64 = match value_get(e, "code") {
                    Some(c) => match c.as_i64() {
                        Some(n) => n,
                        None => {
                            return Err(invalid("error code is not an integer"));
                        },
                    },
                    None => {
                        return Err(invalid("error object has no code"));
                    },
                };
                if code64 < i32::MIN as i64 || code64 > i32::MAX as i64 {
                    return Err(invalid("error code out of range"));
                }
                let message: String = match value_get(e, "message") {
                    Some(m) => match m.as_str() {
                        Some(s) => s.to_owned(),
                        None => {
                            return Err(invalid("error message is not a string"));
                        },
                    },
                    None => {
                        return Err(invalid("error object has no message"));
                    },
                };
                let data: Option<serde_json::Value> = match value_get(e, "data") {
                    Some(d) => if d.is_null() {
                        None
                    } else {
                        Some(d.clone())
                    },
                    None => None,
                };
                Some(ResponseError { code: code64 as i32, message, data })
            }
        },
        None => None,
    };
    let result: Option<serde_json::Value> = match value_get(v, "result") {
        Some(x) => if x.is_null() {
            None
        } else {
            Some(x.clone())
        },
        None => None,
    };
    Ok(Response { jsonrpc, id, result, error })
}

/// Parses a framed message body into a response: bytes that are not
/// JSON fail with `JsonParse`; a parsed document goes through the
/// shape checks of `decode_response`.
pub fn parse_response(body: &[u8]) -> (r: Result<Response, ProtocolError>)
    ensures
        json_doc(body@) is None <==> (r matches Err(e) && e is JsonParse),
        json_doc(body@) matches Some(v) ==> {
            &&& r is Ok <==> wf_response_doc(v)
            &&& (r matches Ok(resp) ==> response_matches_doc(resp, v))
            &&& (r matches Err(e) ==> e is InvalidJsonRpc)
        },
{
    match parse_json_bytes(body) {
        Ok(v) => decode_response(&v),
        Err(m) => Err(ProtocolError::JsonParse(m)),
    }
}

} // verus!
