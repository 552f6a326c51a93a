//! Encoding of an HTTP request as the event that a Lambda function
//! behind an Application Load Balancer receives.

use crate::encoding::{
    base64_bytes, base64_text, decode_base64, encodable_len, encode_base64,
};
use crate::message::{
    all_visible, find_text, header_views, is_visible, text_value, Header, HeaderView,
};
use crate::string_map::{map_of, pair_texts, StringMap};
use crate::text::{
    ascii_bytes, ascii_lower, bytes_eq, bytes_start_with, copy_str, from_utf8_lossy,
    lemma_ascii_lower_twice, literal_bytes, starts_with, to_ascii_lowercase, utf8_lossy,
};
use vstd::prelude::*;
use vstd::string::{StrSliceExecFns, StringExecFns};
use vstd::utf8::{decode_utf8_encode_utf8, encode_utf8, valid_utf8};

verus! {

/// The event sent to the Lambda function.
#[derive(Clone, Debug)]
pub struct AlbEvent {
    /// `httpMethod`: the request method.
    pub http_method: String,
    /// `headers`: lowercase name to value.
    pub headers: StringMap,
    /// `path`: the request path, starting with `/`.
    pub path: String,
    /// `queryStringParameters`: name to value.
    pub query_string_parameters: StringMap,
    /// `isBase64Encoded`: whether `body` is base64 text.
    pub is_base64_encoded: bool,
    /// `body`: the request body as text.
    pub body: String,
    /// `requestContext.elb.targetGroupArn`: always empty.
    pub target_group_arn: String,
}

/// An event as a mathematical value.
pub struct AlbEventView {
    pub http_method: Seq<char>,
    pub headers: Map<Seq<char>, Seq<char>>,
    pub path: Seq<char>,
    pub query_string_parameters: Map<Seq<char>, Seq<char>>,
    pub is_base64_encoded: bool,
    pub body: Seq<char>,
    pub target_group_arn: Seq<char>,
}

impl View for AlbEvent {
    type V = AlbEventView;

    open spec fn view(&self) -> AlbEventView {
        AlbEventView {
            http_method: self.http_method@,
            headers: self.headers@,
            path: self.path@,
            query_string_parameters: self.query_string_parameters@,
            is_base64_encoded: self.is_base64_encoded,
            body: self.body@,
            target_group_arn: self.target_group_arn@,
        }
    }
}

/// A content type whose bodies are sent on as text: one of three
/// application types, exactly, or anything that starts with `text/`.
pub open spec fn is_text_content_type(content_type: Seq<u8>) -> bool {
    &&& all_visible(content_type)
    &&& {
        ||| content_type == ascii_bytes("application/json"@)
        ||| content_type == ascii_bytes("application/xml"@)
        ||| content_type == ascii_bytes("application/javascript"@)
        ||| starts_with(content_type, ascii_bytes("text/"@))
    }
}

/// The content type of a request: the value of its first `content-type`
/// field where that reads as text, else nothing.
pub open spec fn content_type(headers: Seq<HeaderView>) -> Seq<u8> {
    match text_value(headers, "content-type"@) {
        Some(v) => v,
        None => Seq::empty(),
    }
}

/// Whether the body of a request with these header fields is sent on as
/// base64: always, unless the content type says that it is text.
pub open spec fn sends_base64(headers: Seq<HeaderView>) -> bool {
    !is_text_content_type(content_type(headers))
}

/// Header fields as pairs for the event: the name in lowercase, the value
/// decoded as UTF-8 with replacement characters.
pub open spec fn header_pairs(headers: Seq<HeaderView>) -> Seq<(Seq<char>, Seq<char>)> {
    Seq::new(headers.len(), |i: int| (ascii_lower(headers[i].name), utf8_lossy(headers[i].value)))
}

/// The path of the event: `/` followed by what the route captured.
pub open spec fn request_path(captured: Option<Seq<char>>) -> Seq<char> {
    seq!['/'] + match captured {
        Some(p) => p,
        None => Seq::empty(),
    }
}

/// The body of the event.
pub open spec fn event_body(body: Seq<u8>, base64: bool) -> Seq<char> {
    if base64 {
        base64_text(body)
    } else {
        utf8_lossy(body)
    }
}

/// The event for a request.
pub open spec fn alb_event(
    method: Seq<char>,
    captured: Option<Seq<char>>,
    query: Seq<(Seq<char>, Seq<char>)>,
    headers: Seq<HeaderView>,
    body: Seq<u8>,
) -> AlbEventView {
    AlbEventView {
        http_method: method,
        headers: map_of(header_pairs(headers)),
        path: request_path(captured),
        query_string_parameters: map_of(query),
        is_base64_encoded: sends_base64(headers),
        body: event_body(body, sends_base64(headers)),
        target_group_arn: Seq::empty(),
    }
}

/// The bytes that the body of an event stands for: what its base64 text
/// decodes to (`None` where it does not decode), or the UTF-8 bytes of its
/// text.
pub open spec fn decoded_body(body: Seq<char>, is_base64: bool) -> Option<Seq<u8>> {
    if is_base64 {
        base64_bytes(body)
    } else {
        Some(encode_utf8(body))
    }
}

/// The text of an optional string slice.
pub open spec fn opt_str(s: Option<&str>) -> Option<Seq<char>> {
    match s {
        Some(t) => Some(t@),
        None => None,
    }
}

/// Every event path begins with `/`.
pub proof fn lemma_path_begins_with_slash(captured: Option<Seq<char>>)
    ensures
        request_path(captured).len() >= 1,
        request_path(captured)[0] == '/',
{
}

/// The parts of a request can be read back from its event: the method as
/// it was, what the route captured after the leading `/` of the path, the
/// query as a mapping, and the header fields as a mapping whose keys are
/// the names of the fields in lowercase, and nothing else.
pub proof fn lemma_event_keeps_the_request(
    method: Seq<char>,
    captured: Seq<char>,
    query: Seq<(Seq<char>, Seq<char>)>,
    headers: Seq<HeaderView>,
    body: Seq<u8>,
)
    ensures
        ({
            let event = alb_event(method, Some(captured), query, headers, body);
            &&& event.http_method == method
            &&& event.path.skip(1) == captured
            &&& event.query_string_parameters == map_of(query)
            &&& event.headers == map_of(header_pairs(headers))
            &&& forall|i: int|
                0 <= i < headers.len() ==> event.headers.dom().contains(
                    ascii_lower(#[trigger] headers[i].name),
                )
            &&& forall|key: Seq<char>| #[trigger]
                event.headers.dom().contains(key) ==> ascii_lower(key) == key && exists|i: int|
                    0 <= i < headers.len() && ascii_lower(headers[i].name) == key
        }),
{
    let event = alb_event(method, Some(captured), query, headers, body);
    assert(event.path.skip(1) =~= captured);
    assert forall|key: Seq<char>| #[trigger] event.headers.dom().contains(key) implies ascii_lower(
        key,
    ) == key && exists|i: int| 0 <= i < headers.len() && ascii_lower(headers[i].name) == key by {
        crate::string_map::lemma_map_of_dom(header_pairs(headers), key);
        let i = choose|i: int|
            0 <= i < header_pairs(headers).len() && header_pairs(headers)[i].0 == key;
        assert(ascii_lower(headers[i].name) == key);
        lemma_ascii_lower_twice(headers[i].name);
    }
    assert forall|i: int| 0 <= i < headers.len() implies event.headers.dom().contains(
        ascii_lower(#[trigger] headers[i].name),
    ) by {
        crate::string_map::lemma_map_of_dom(header_pairs(headers), ascii_lower(headers[i].name));
        assert(header_pairs(headers)[i].0 == ascii_lower(headers[i].name));
    }
}

/// Tells whether bodies of this content type are sent on as text.
pub fn is_textual(content_type: &[u8]) -> (textual: bool)
    ensures
        textual == is_text_content_type(content_type@),
{
    proof {
        reveal_strlit("application/json");
        reveal_strlit("application/xml");
        reveal_strlit("application/javascript");
        reveal_strlit("text/");
    }
    is_visible(content_type) && (bytes_eq(content_type, literal_bytes("application/json"))
        || bytes_eq(content_type, literal_bytes("application/xml")) || bytes_eq(
        content_type,
        literal_bytes("application/javascript"),
    ) || bytes_start_with(content_type, literal_bytes("text/")))
}

/// Decides from the header fields whether the body is sent on as base64.
pub fn body_needs_base64(headers: &Vec<Header>) -> (base64: bool)
    ensures
        base64 == sends_base64(header_views(headers@)),
{
    match find_text(headers, "content-type") {
        Some(v) => !is_textual(v.as_slice()),
        None => {
            let none: Vec<u8> = Vec::new();
            !is_textual(none.as_slice())
        },
    }
}

/// Flattens header fields into a mapping from lowercase name to value. Of
/// several fields with one name the last one stays.
pub fn to_string_map(headers: &Vec<Header>) -> (map: StringMap)
    ensures
        map@ == map_of(header_pairs(header_views(headers@))),
{
    let ghost pairs = header_pairs(header_views(headers@));
    let mut map = StringMap::new();
    let mut i: usize = 0;
    while i < headers.len()
        invariant
            i <= headers@.len(),
            pairs == header_pairs(header_views(headers@)),
            map@ == map_of(pairs.take(i as int)),
        decreases headers@.len() - i,
    {
        let name = to_ascii_lowercase(headers[i].name.as_str());
        let value = from_utf8_lossy(headers[i].value.as_slice());
        proof {
            let next = pairs.take(i + 1);
            assert(next.drop_last() == pairs.take(i as int));
            assert(next.last() == (name@, value@));
        }
        map.insert(name, value);
        i = i + 1;
    }
    proof {
        assert(pairs.take(pairs.len() as int) == pairs);
    }
    map
}

/// Turns the body into text: base64, or UTF-8 decoded with replacement
/// characters.
pub fn encode_body(body: &[u8], base64: bool) -> (text: String)
    requires
        base64 ==> encodable_len(body@.len()),
    ensures
        text@ == event_body(body@, base64),
        base64 ==> base64_bytes(text@) == Some(body@),
        base64 || valid_utf8(body@) ==> decoded_body(text@, base64) == Some(body@),
{
    if base64 {
        encode_base64(body)
    } else {
        proof {
            if valid_utf8(body@) {
                decode_utf8_encode_utf8(body@);
            }
        }
        from_utf8_lossy(body)
    }
}

/// Builds the event path from what the route captured after `/`.
pub fn build_path(captured: Option<&str>) -> (path: String)
    ensures
        path@ == request_path(opt_str(captured)),
{
    let slash = copy_str("/");
    proof {
        reveal_strlit("/");
        assert(slash@ =~= seq!['/']);
    }
    match captured {
        Some(p) => slash.concat(p),
        None => {
            assert(slash@ + Seq::<char>::empty() =~= slash@);
            slash
        },
    }
}

/// Builds the event for a request.
///
/// Method, path, query and header fields go in as they are given, the
/// header names in lowercase. The body goes in as base64 unless the content
/// type says that it is text. Reading the body of the event back gives the
/// bytes of the request body, for every body sent as base64 and for every
/// text body that is well-formed UTF-8. A body that is sent as base64 must
/// be short enough for its encoding to have a length.
pub fn encode_request(
    method: &str,
    captured: Option<&str>,
    query: &Vec<(String, String)>,
    headers: &Vec<Header>,
    body: &[u8],
) -> (event: AlbEvent)
    requires
        sends_base64(header_views(headers@)) ==> encodable_len(body@.len()),
    ensures
        event@ == alb_event(
            method@,
            opt_str(captured),
            pair_texts(query@),
            header_views(headers@),
            body@,
        ),
        event@.path[0] == '/',
        event@.is_base64_encoded ==> base64_bytes(event@.body) == Some(body@),
        !event@.is_base64_encoded ==> event@.body == utf8_lossy(body@),
        event@.is_base64_encoded || valid_utf8(body@) ==> decoded_body(
            event@.body,
            event@.is_base64_encoded,
        ) == Some(body@),
{
    let base64 = body_needs_base64(headers);
    AlbEvent {
        http_method: copy_str(method),
        headers: to_string_map(headers),
        path: build_path(captured),
        query_string_parameters: StringMap::from_pairs(query),
        is_base64_encoded: base64,
        body: encode_body(body, base64),
        target_group_arn: String::new(),
    }
}

impl AlbEvent {
    /// Reads the body of the event back into bytes; `None` where the body
    /// should be base64 and does not decode.
    pub fn body_bytes(&self) -> (bytes: Option<Vec<u8>>)
        ensures
            match decoded_body(self@.body, self@.is_base64_encoded) {
                Some(b) => bytes matches Some(v) && v@ == b,
                None => bytes is None,
            },
    {
        if self.is_base64_encoded {
            match decode_base64(self.body.as_str()) {
                Ok(bytes) => Some(bytes),
                Err(_) => None,
            }
        } else {
            Some(self.body.as_str().as_bytes_vec())
        }
    }
}

} // verus!
