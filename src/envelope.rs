//! Requests and responses, and the inbound and outbound envelopes that carry
//! them to and from the hosting runtime.
use crate::json::{json_accepts, json_string_literal, json_text, parse_json, quote_json};
use crate::strmap::StringMap;
use vstd::prelude::*;

verus! {

/// What a handler receives.
pub struct Request {
    /// Parameters captured from the path (`{user_id}` -> "123").
    pub path_params: StringMap,
    /// Query string parameters.
    pub query_params: StringMap,
    /// Header names and values.
    pub headers: StringMap,
    /// The raw body.
    pub body: Option<String>,
    /// The body parsed as JSON, when it is present and parses.
    pub json_body: Option<serde_json::Value>,
}

/// What a handler returns.
pub struct Response {
    pub status_code: i64,
    pub body: serde_json::Value,
    /// Headers to add to the outbound envelope.
    pub headers: StringMap,
}

impl Response {
    /// A JSON response with status 200 and no extra headers.
    pub fn json(body: serde_json::Value) -> (r: Response)
        ensures
            r.status_code == 200,
            r.body == body,
            r.headers.pairs().len() == 0,
            r.headers@ == Map::<Seq<char>, Seq<char>>::empty(),
    {
        Response { status_code: 200, body, headers: StringMap::new() }
    }

    /// The same response with status `code`.
    pub fn with_status(self, code: i64) -> (r: Response)
        ensures
            r.status_code == code,
            r.body == self.body,
            r.headers == self.headers,
    {
        let mut r = self;
        r.status_code = code;
        r
    }

    /// The same response with the header `key: value` added, replacing an
    /// earlier value of `key`.
    pub fn with_header(self, key: &str, value: &str) -> (r: Response)
        ensures
            r.status_code == self.status_code,
            r.body == self.body,
            r.headers.pairs() == self.headers.pairs().push((key@, value@)),
            r.headers@ == self.headers@.insert(key@, value@),
    {
        let mut r = self;
        r.headers.insert(key.to_owned(), value.to_owned());
        r
    }
}

/// An inbound event from the hosting runtime.
pub struct InboundEvent {
    pub http_method: String,
    /// The request path; the root path when absent.
    pub path: Option<String>,
    pub query_string_parameters: StringMap,
    pub headers: StringMap,
    pub body: Option<String>,
}

/// An outbound event for the hosting runtime.
pub struct OutboundEvent {
    pub status_code: i64,
    pub headers: StringMap,
    /// JSON text.
    pub body: Option<String>,
}

/// A character that HTTP allows in a header name (a `tchar`).
pub open spec fn header_name_char(c: char) -> bool {
    ('a' <= c <= 'z') || ('A' <= c <= 'Z') || ('0' <= c <= '9') || c == '!' || c == '#' || c
        == '$' || c == '%' || c == '&' || c == '\'' || c == '*' || c == '+' || c == '-' || c
        == '.' || c == '^' || c == '_' || c == '`' || c == '|' || c == '~'
}

/// Whether `k` is a header name that HTTP accepts.
pub open spec fn valid_header_name(k: Seq<char>) -> bool {
    1 <= k.len() <= 65535 && forall|i: int| 0 <= i < k.len() ==> header_name_char(#[trigger] k[i])
}

pub open spec fn ascii_lower(c: char) -> char {
    if 'A' <= c <= 'Z' {
        ((c as u32 + 32) as u8) as char
    } else {
        c
    }
}

/// The canonical (lower case) form of a header name.
pub open spec fn lower_name(k: Seq<char>) -> Seq<char> {
    k.map_values(|c: char| ascii_lower(c))
}

/// Whether `v` is a header value that HTTP accepts: no control character
/// other than a tab.
pub open spec fn valid_header_value(v: Seq<char>) -> bool {
    forall|i: int|
        0 <= i < v.len() ==> #[trigger] v[i] == '\t' || (v[i] as u32 >= 32 && v[i] as u32 != 127)
}

/// Relies on http::header::HeaderName::from_bytes: it accepts a non-empty
/// name of at most 65535 `tchar`s and gives it in lower case.
#[verifier::external_body]
fn canonical_header_name(k: &str) -> (r: Option<String>)
    ensures
        r is Some <==> valid_header_name(k@),
        r is Some ==> r->0@ == lower_name(k@),
{
    http::header::HeaderName::from_bytes(k.as_bytes()).ok().map(|n| n.as_str().to_owned())
}

/// Relies on http::HeaderValue::from_str: it accepts exactly the strings
/// whose bytes are all a tab or at least 32 and other than 127.
#[verifier::external_body]
fn header_value_accepted(v: &str) -> (b: bool)
    ensures
        b == valid_header_value(v@),
{
    http::HeaderValue::from_str(v).is_ok()
}

pub open spec fn content_type_name() -> Seq<char> {
    seq!['c', 'o', 'n', 't', 'e', 'n', 't', '-', 't', 'y', 'p', 'e']
}

pub open spec fn json_media_type() -> Seq<char> {
    seq!['a', 'p', 'p', 'l', 'i', 'c', 'a', 't', 'i', 'o', 'n', '/', 'j', 's', 'o', 'n']
}

/// The headers of an outbound envelope: the JSON content type, overridden
/// in order by each response header that HTTP accepts, under its canonical
/// name; a header that HTTP refuses is left out.
pub open spec fn merged_headers(pairs: Seq<(Seq<char>, Seq<char>)>) -> Map<Seq<char>, Seq<char>>
    decreases pairs.len(),
{
    if pairs.len() == 0 {
        Map::empty().insert(content_type_name(), json_media_type())
    } else {
        let m = merged_headers(pairs.drop_last());
        let (k, v) = pairs.last();
        if valid_header_name(k) && valid_header_value(v) {
            m.insert(lower_name(k), v)
        } else {
            m
        }
    }
}

/// Headers holding only the JSON content type.
fn json_headers() -> (r: StringMap)
    ensures
        r@ == merged_headers(Seq::empty()),
{
    let mut h = StringMap::new();
    let name = String::from_str("content-type");
    let value = String::from_str("application/json");
    proof {
        reveal_strlit("content-type");
        reveal_strlit("application/json");
        assert(name@ =~= content_type_name());
        assert(value@ =~= json_media_type());
    }
    h.insert(name, value);
    h
}

/// Encodes a handler's response whose body is already JSON text `body`.
pub fn encode_response(status_code: i64, headers: &StringMap, body: String) -> (r: OutboundEvent)
    ensures
        r.status_code == status_code,
        r.headers@ == merged_headers(headers.pairs()),
        r.body is Some,
        r.body->0@ == body@,
{
    let mut out = json_headers();
    let n = headers.num_entries();
    let mut i: usize = 0;
    while i < n
        invariant
            n == headers.pairs().len(),
            i <= n,
            out@ == merged_headers(headers.pairs().take(i as int)),
        decreases n - i,
    {
        let k = headers.key_at(i);
        let v = headers.value_at(i);
        proof {
            assert(headers.pairs().take(i + 1).drop_last() =~= headers.pairs().take(i as int));
        }
        match canonical_header_name(k.as_str()) {
            Some(name) => {
                if header_value_accepted(v.as_str()) {
                    out.insert(name, v.clone());
                }
            },
            None => {},
        }
        i = i + 1;
    }
    proof {
        assert(headers.pairs().take(n as int) =~= headers.pairs());
    }
    OutboundEvent { status_code, headers: out, body: Some(body) }
}

/// Encodes a handler's response: its status, the merged headers, and its
/// body written as JSON.
pub fn build_response(resp: &Response) -> (r: OutboundEvent)
    ensures
        r.status_code == resp.status_code,
        r.headers@ == merged_headers(resp.headers.pairs()),
        r.body is Some,
{
    let text = json_text(&resp.body);
    encode_response(resp.status_code, &resp.headers, text)
}

/// The JSON text `{"error":<message>}`, given the literal for `message`.
pub open spec fn error_body(literal: Seq<char>) -> Seq<char> {
    seq!['{', '"', 'e', 'r', 'r', 'o', 'r', '"', ':'] + literal + seq!['}']
}

/// An error envelope: status `status_code`, the JSON content type, and the
/// body `{"error":<message>}`.
pub fn error_response(status_code: i64, message: &str) -> (r: OutboundEvent)
    ensures
        r.status_code == status_code,
        r.headers@ == merged_headers(Seq::empty()),
        r.body is Some,
        r.body->0@ == error_body(json_string_literal(message@)),
{
    let literal = quote_json(message);
    let mut body = String::from_str("{\"error\":");
    body.append(literal.as_str());
    body.append("}");
    proof {
        reveal_strlit("{\"error\":");
        reveal_strlit("}");
        assert(body@ =~= error_body(json_string_literal(message@)));
    }
    OutboundEvent { status_code, headers: json_headers(), body: Some(body) }
}

/// The request handed to a handler: the captured parameters, and the
/// event's query, headers and body; the body is parsed as JSON when it is
/// present, and left unparsed when it is not valid JSON.
pub fn build_request(event: InboundEvent, path_params: StringMap) -> (r: Request)
    ensures
        r.path_params == path_params,
        r.query_params == event.query_string_parameters,
        r.headers == event.headers,
        r.body == event.body,
        r.json_body is Some <==> (event.body is Some && json_accepts(event.body->0@)),
{
    let json_body = match &event.body {
        Some(text) => parse_json(text.as_str()),
        None => None,
    };
    Request {
        path_params,
        query_params: event.query_string_parameters,
        headers: event.headers,
        body: event.body,
        json_body,
    }
}

/// Every encoded response carries the JSON content type, unless a response
/// header of that name replaced it; and a response header that HTTP accepts,
/// not overridden by a later one of the same canonical name, appears with its
/// value unchanged.
pub proof fn lemma_merged_headers(pairs: Seq<(Seq<char>, Seq<char>)>, i: int)
    requires
        0 <= i < pairs.len(),
        valid_header_name(pairs[i].0),
        valid_header_value(pairs[i].1),
        forall|j: int|
            i < j < pairs.len() && valid_header_name(pairs[j].0) && valid_header_value(pairs[j].1)
                ==> lower_name(#[trigger] pairs[j].0) != lower_name(pairs[i].0),
    ensures
        merged_headers(pairs).contains_key(content_type_name()),
        merged_headers(pairs).contains_key(lower_name(pairs[i].0)),
        merged_headers(pairs)[lower_name(pairs[i].0)] == pairs[i].1,
    decreases pairs.len(),
{
    lemma_content_type_present(pairs);
    if i < pairs.len() - 1 {
        let prefix = pairs.drop_last();
        assert forall|j: int|
            i < j < prefix.len() && valid_header_name(prefix[j].0) && valid_header_value(
                prefix[j].1,
            ) implies lower_name(#[trigger] prefix[j].0) != lower_name(prefix[i].0) by {
            assert(prefix[j] == pairs[j]);
        }
        lemma_merged_headers(prefix, i);
        let j = pairs.len() - 1;
        assert(pairs[j] == pairs.last());
    }
}

/// The encoded headers always hold a content type, and it is the JSON one
/// unless a response header that HTTP accepts names the content type.
pub proof fn lemma_content_type_present(pairs: Seq<(Seq<char>, Seq<char>)>)
    ensures
        merged_headers(pairs).contains_key(content_type_name()),
        (forall|j: int|
            0 <= j < pairs.len() && valid_header_name(pairs[j].0) && valid_header_value(pairs[j].1)
                ==> lower_name(#[trigger] pairs[j].0) != content_type_name()) ==> merged_headers(
            pairs,
        )[content_type_name()] == json_media_type(),
    decreases pairs.len(),
{
    if pairs.len() > 0 {
        let prefix = pairs.drop_last();
        lemma_content_type_present(prefix);
        if forall|j: int|
            0 <= j < pairs.len() && valid_header_name(pairs[j].0) && valid_header_value(pairs[j].1)
                ==> lower_name(#[trigger] pairs[j].0) != content_type_name() {
            assert forall|j: int|
                0 <= j < prefix.len() && valid_header_name(prefix[j].0) && valid_header_value(
                    prefix[j].1,
                ) implies lower_name(#[trigger] prefix[j].0) != content_type_name() by {
                assert(prefix[j] == pairs[j]);
            }
            assert(pairs[pairs.len() - 1] == pairs.last());
        }
    }
}

} // verus!
