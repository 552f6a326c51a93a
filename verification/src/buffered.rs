//! Assembly of one HTTP response from a buffered Lambda reply.

use crate::encoding::{base64_bytes, decode_base64};
use crate::error::GatewayError;
use crate::message::{
    fields_are_sendable, header_views, is_valid_status, sendable, status_is_valid, Header,
    HeaderView, HttpResponse, HttpResponseView,
};
use crate::string_map::{lemma_map_of_dom, lemma_map_of_value, pair_texts, StringMap};
use vstd::prelude::*;
use vstd::string::StrSliceExecFns;
use vstd::utf8::encode_utf8;

verus! {

/// The reply document of a buffered invocation.
#[derive(Clone, Debug)]
pub struct LambdaResponse {
    /// `statusCode`
    pub status_code: u16,
    /// `statusDescription`
    pub status_description: Option<String>,
    /// `isBase64Encoded`; absent means `false`.
    pub is_base64_encoded: Option<bool>,
    /// `headers`
    pub headers: Option<StringMap>,
    /// `body`
    pub body: String,
}

/// Header fields for a list of name and value texts: the names as they
/// are, the values as their UTF-8 bytes.
pub open spec fn text_headers(pairs: Seq<(Seq<char>, Seq<char>)>) -> Seq<HeaderView> {
    Seq::new(pairs.len(), |i: int| HeaderView { name: pairs[i].0, value: encode_utf8(pairs[i].1) })
}

/// The header fields of the response: every entry of the reply's
/// `headers`, in the order in which the mapping holds them.
pub open spec fn reply_headers(headers: Option<StringMap>) -> Seq<HeaderView> {
    match headers {
        Some(map) => text_headers(map.entries()),
        None => Seq::empty(),
    }
}

/// The header fields are the entries of the mapping, no more and no less:
/// each field has a key of the mapping as its name and the UTF-8 bytes of
/// the value stored for that key as its value, and every key has its field.
pub open spec fn carries(headers: Seq<HeaderView>, map: Map<Seq<char>, Seq<char>>) -> bool {
    &&& forall|i: int|
        0 <= i < headers.len() ==> map.dom().contains(#[trigger] headers[i].name)
            && headers[i].value == encode_utf8(map[headers[i].name])
    &&& forall|key: Seq<char>| #[trigger]
        map.dom().contains(key) ==> exists|i: int| 0 <= i < headers.len() && headers[i].name == key
}

/// The header fields that a reply asks for, as a mapping; none where the
/// reply has no `headers`.
pub open spec fn wanted_headers(headers: Option<StringMap>) -> Map<Seq<char>, Seq<char>> {
    match headers {
        Some(map) => map@,
        None => Map::empty(),
    }
}

/// The body bytes of the response: the decoded `body` where the reply says
/// that it is base64 (`None` where it does not decode), else the UTF-8
/// bytes of `body`.
pub open spec fn reply_body(body: Seq<char>, is_base64: Option<bool>) -> Option<Seq<u8>> {
    if is_base64 == Some(true) {
        base64_bytes(body)
    } else {
        Some(encode_utf8(body))
    }
}

/// The response assembled from the parts of a reply: its status, its
/// header fields, and the bytes of its body. A status that is no HTTP
/// status and a header field that cannot be sent make the reply malformed.
pub open spec fn assembled(status_code: u16, headers: Seq<HeaderView>, body: Seq<u8>) -> Result<
    HttpResponseView,
    GatewayError,
> {
    if !is_valid_status(status_code) || !sendable(headers) {
        Err(GatewayError::BadUpstreamResponse)
    } else {
        Ok(HttpResponseView { status: status_code, headers, body })
    }
}

/// The response for a buffered reply. `None` stands for a reply that is
/// missing or is no reply document. A reply is malformed, too, where its
/// body should be base64 and is not, or where no response can be
/// assembled from its parts.
pub open spec fn buffered_response(reply: Option<LambdaResponse>) -> Result<
    HttpResponseView,
    GatewayError,
> {
    match reply {
        None => Err(GatewayError::BadUpstreamResponse),
        Some(r) => match reply_body(r.body@, r.is_base64_encoded) {
            None => Err(GatewayError::BadUpstreamResponse),
            Some(body) => assembled(r.status_code, reply_headers(r.headers), body),
        },
    }
}

/// Copies the entries of a mapping into header fields.
fn copy_headers(map: &StringMap) -> (headers: Vec<Header>)
    ensures
        header_views(headers@) == text_headers(map.entries()),
        carries(header_views(headers@), map@),
{
    let pairs = map.pairs();
    proof {
        let entries = map.entries();
        let fields = text_headers(entries);
        assert forall|i: int| 0 <= i < fields.len() implies map@.dom().contains(
            #[trigger] fields[i].name,
        ) && fields[i].value == encode_utf8(map@[fields[i].name]) by {
            lemma_map_of_value(entries, i);
        }
        assert forall|key: Seq<char>| #[trigger] map@.dom().contains(key) implies exists|i: int|
            0 <= i < fields.len() && fields[i].name == key by {
            lemma_map_of_dom(entries, key);
            let i = choose|i: int| 0 <= i < entries.len() && entries[i].0 == key;
            assert(fields[i].name == key);
        }
    }
    let mut headers: Vec<Header> = Vec::new();
    let mut i: usize = 0;
    while i < pairs.len()
        invariant
            i <= pairs@.len(),
            header_views(headers@) == text_headers(map.entries()).take(i as int),
            pair_texts(pairs@) == map.entries(),
        decreases pairs@.len() - i,
    {
        let ghost before = header_views(headers@);
        let header = Header {
            name: pairs[i].0.clone(),
            value: pairs[i].1.as_str().as_bytes_vec(),
        };
        headers.push(header);
        proof {
            assert(map.entries()[i as int] == (pairs@[i as int].0@, pairs@[i as int].1@));
            assert(header_views(headers@) =~= before.push(header@));
            assert(text_headers(map.entries()).take(i + 1) =~= text_headers(map.entries()).take(
                i as int,
            ).push(header@));
        }
        i = i + 1;
    }
    proof {
        assert(text_headers(map.entries()).take(pairs@.len() as int) == text_headers(
            map.entries(),
        ));
    }
    headers
}

/// Reads the body of a reply into bytes: base64-decoded where the reply
/// says that it is base64, else its UTF-8 bytes.
pub fn read_body(body: &str, is_base64: Option<bool>) -> (bytes: Result<Vec<u8>, GatewayError>)
    ensures
        match reply_body(body@, is_base64) {
            Some(b) => bytes matches Ok(v) && v@ == b,
            None => bytes == Err::<Vec<u8>, GatewayError>(GatewayError::BadUpstreamResponse),
        },
{
    match is_base64 {
        Some(true) => decode_base64(body),
        _ => Ok(body.as_bytes_vec()),
    }
}

/// Assembles a response from a status, header fields and body bytes.
pub fn assemble_response(status_code: u16, headers: Vec<Header>, body: Vec<u8>) -> (response:
    Result<HttpResponse, GatewayError>)
    ensures
        match assembled(status_code, header_views(headers@), body@) {
            Ok(v) => response matches Ok(r) && r@ == v,
            Err(e) => response == Err::<HttpResponse, GatewayError>(e),
        },
        response matches Ok(r) ==> is_valid_status(r@.status) && sendable(r@.headers),
{
    if !status_is_valid(status_code) || !fields_are_sendable(&headers) {
        Err(GatewayError::BadUpstreamResponse)
    } else {
        Ok(HttpResponse { status: status_code, headers, body })
    }
}

/// Builds the HTTP response for a buffered reply.
///
/// The status is the reply's `statusCode`, which must be a valid HTTP
/// status. Every entry of `headers` becomes a header field, and there are
/// no other header fields. The body is the
/// reply's `body`, base64-decoded where the reply says so. A missing or
/// unreadable reply (`None`), an invalid status, an entry of `headers` that
/// cannot be sent as a header field and a body that does not decode are
/// all `BadUpstreamResponse`.
pub fn handle_buffered_response(reply: Option<LambdaResponse>) -> (response: Result<
    HttpResponse,
    GatewayError,
>)
    ensures
        match buffered_response(reply) {
            Ok(v) => response matches Ok(r) && r@ == v,
            Err(e) => response == Err::<HttpResponse, GatewayError>(e),
        },
        response matches Ok(r) ==> is_valid_status(r@.status) && sendable(r@.headers),
        response matches Ok(r) ==> reply matches Some(given) && carries(
            r@.headers,
            wanted_headers(given.headers),
        ),
{
    let r = match reply {
        Some(r) => r,
        None => {
            return Err(GatewayError::BadUpstreamResponse);
        },
    };
    let body = match read_body(r.body.as_str(), r.is_base64_encoded) {
        Ok(bytes) => bytes,
        Err(e) => {
            return Err(e);
        },
    };
    let headers = match &r.headers {
        Some(map) => copy_headers(map),
        None => {
            let none: Vec<Header> = Vec::new();
            assert(header_views(none@) =~= Seq::<HeaderView>::empty());
            none
        },
    };
    assert(carries(header_views(headers@), wanted_headers(r.headers)));
    assemble_response(r.status_code, headers, body)
}

} // verus!
