//! HTTP messages as plain values: header fields, response heads, responses.

use crate::text::{ascii_lower, str_eq, to_ascii_lowercase};
use vstd::prelude::*;
use vstd::utf8::encode_utf8;

verus! {

/// One header field: a name and the raw bytes of its value.
#[derive(Debug, PartialEq, Eq)]
pub struct Header {
    pub name: String,
    pub value: Vec<u8>,
}

/// A header field as a mathematical value.
pub struct HeaderView {
    pub name: Seq<char>,
    pub value: Seq<u8>,
}

impl View for Header {
    type V = HeaderView;

    open spec fn view(&self) -> HeaderView {
        HeaderView { name: self.name@, value: self.value@ }
    }
}

impl Clone for Header {
    fn clone(&self) -> (copy: Header)
        ensures
            copy@ == self@,
    {
        Header { name: self.name.clone(), value: self.value.clone() }
    }
}

/// The views of a list of header fields, in order.
pub open spec fn header_views(headers: Seq<Header>) -> Seq<HeaderView> {
    Seq::new(headers.len(), |i: int| headers[i]@)
}

/// A byte that may stand in a header value that is read as text: a
/// printable ASCII character, a space or a tab.
pub open spec fn is_visible_ascii(b: u8) -> bool {
    (32 <= b && b < 127) || b == 9
}

/// Every byte of the value may stand in text.
pub open spec fn all_visible(value: Seq<u8>) -> bool {
    forall|i: int| 0 <= i < value.len() ==> is_visible_ascii(#[trigger] value[i])
}

/// The value of the first field whose name, lowercased, is `name`.
pub open spec fn first_value(headers: Seq<HeaderView>, name: Seq<char>) -> Option<Seq<u8>>
    decreases headers.len(),
{
    if headers.len() == 0 {
        None
    } else if ascii_lower(headers[0].name) == name {
        Some(headers[0].value)
    } else {
        first_value(headers.drop_first(), name)
    }
}

/// The value of the first field named `name`, where that value reads as
/// text; `None` where there is no such field or its value holds a byte that
/// may not stand in text.
pub open spec fn text_value(headers: Seq<HeaderView>, name: Seq<char>) -> Option<Seq<u8>> {
    match first_value(headers, name) {
        Some(v) => if all_visible(v) {
            Some(v)
        } else {
            None
        },
        None => None,
    }
}

/// Finds the value of the first field with the given name. Case is ignored
/// in the names of the fields; `name` itself is given in lowercase.
pub fn find_header<'a>(headers: &'a Vec<Header>, name: &str) -> (value: Option<&'a Vec<u8>>)
    ensures
        match first_value(header_views(headers@), name@) {
            Some(v) => value matches Some(x) && x@ == v,
            None => value is None,
        },
{
    let ghost all = header_views(headers@);
    let mut i: usize = 0;
    proof {
        assert(all.skip(0) == all);
    }
    while i < headers.len()
        invariant
            i <= headers@.len(),
            all == header_views(headers@),
            first_value(all, name@) == first_value(all.skip(i as int), name@),
        decreases headers@.len() - i,
    {
        let lower = to_ascii_lowercase(headers[i].name.as_str());
        proof {
            assert(all.skip(i as int)[0] == headers@[i as int]@);
            assert(all.skip(i as int).drop_first() == all.skip(i + 1));
        }
        if str_eq(lower.as_str(), name) {
            return Some(&headers[i].value);
        }
        i = i + 1;
    }
    None
}

/// Tells whether every byte of the value may stand in text.
pub fn is_visible(value: &[u8]) -> (yes: bool)
    ensures
        yes == all_visible(value@),
{
    let mut i: usize = 0;
    while i < value.len()
        invariant
            i <= value@.len(),
            forall|j: int| 0 <= j < i ==> is_visible_ascii(#[trigger] value@[j]),
        decreases value@.len() - i,
    {
        let b = value[i];
        if !((32 <= b && b < 127) || b == 9) {
            return false;
        }
        i = i + 1;
    }
    true
}

/// Finds the value of the first field with the given lowercase name and
/// hands it out if it reads as text.
pub fn find_text<'a>(headers: &'a Vec<Header>, name: &str) -> (value: Option<&'a Vec<u8>>)
    ensures
        match text_value(header_views(headers@), name@) {
            Some(v) => value matches Some(x) && x@ == v,
            None => value is None,
        },
{
    match find_header(headers, name) {
        Some(v) => if is_visible(v.as_slice()) {
            Some(v)
        } else {
            None
        },
        None => None,
    }
}

/// A byte that may stand in a header name: a letter, a digit, or one of
/// the marks ``! # $ % & ' * + - . ^ _ ` | ~`` that HTTP allows in a token.
pub open spec fn is_name_byte(b: u8) -> bool {
    ||| (0x61 <= b && b <= 0x7a)
    ||| (0x41 <= b && b <= 0x5a)
    ||| (0x30 <= b && b <= 0x39)
    ||| b == 0x21
    ||| (0x23 <= b && b <= 0x27)
    ||| b == 0x2a
    ||| b == 0x2b
    ||| b == 0x2d
    ||| b == 0x2e
    ||| b == 0x5e
    ||| b == 0x5f
    ||| b == 0x60
    ||| b == 0x7c
    ||| b == 0x7e
}

/// The longest header name, in bytes.
pub const MAX_NAME_LEN: usize = 65535;

/// A name that can be sent as the name of a header field: between one and
/// 65535 bytes, each of which may stand in a header name.
pub open spec fn valid_header_name(name: Seq<char>) -> bool {
    let bytes = encode_utf8(name);
    &&& 1 <= bytes.len() <= 65535
    &&& forall|i: int| 0 <= i < bytes.len() ==> is_name_byte(#[trigger] bytes[i])
}

/// A byte that may stand in a header value: anything but control
/// characters, of which only the tab is allowed.
pub open spec fn is_value_byte(b: u8) -> bool {
    (b >= 32 && b != 127) || b == 9
}

/// A value that can be sent as the value of a header field.
pub open spec fn valid_header_value(value: Seq<u8>) -> bool {
    forall|i: int| 0 <= i < value.len() ==> is_value_byte(#[trigger] value[i])
}

/// A header field that can be sent.
pub open spec fn sendable_field(field: HeaderView) -> bool {
    valid_header_name(field.name) && valid_header_value(field.value)
}

/// Header fields that can all be sent.
pub open spec fn sendable(headers: Seq<HeaderView>) -> bool {
    forall|i: int| 0 <= i < headers.len() ==> sendable_field(#[trigger] headers[i])
}

/// Tells whether `name` can be sent as the name of a header field.
pub fn name_is_valid(name: &str) -> (valid: bool)
    ensures
        valid == valid_header_name(name@),
{
    let bytes = name.as_bytes();
    if bytes.len() == 0 || bytes.len() > MAX_NAME_LEN {
        return false;
    }
    let mut i: usize = 0;
    while i < bytes.len()
        invariant
            i <= bytes@.len(),
            bytes@ == encode_utf8(name@),
            forall|j: int| 0 <= j < i ==> is_name_byte(#[trigger] bytes@[j]),
        decreases bytes@.len() - i,
    {
        let b = bytes[i];
        let ok = (0x61 <= b && b <= 0x7a) || (0x41 <= b && b <= 0x5a) || (0x30 <= b && b <= 0x39)
            || b == 0x21 || (0x23 <= b && b <= 0x27) || b == 0x2a || b == 0x2b || b == 0x2d || b
            == 0x2e || b == 0x5e || b == 0x5f || b == 0x60 || b == 0x7c || b == 0x7e;
        if !ok {
            return false;
        }
        i = i + 1;
    }
    true
}

/// Tells whether `value` can be sent as the value of a header field.
pub fn value_is_valid(value: &[u8]) -> (valid: bool)
    ensures
        valid == valid_header_value(value@),
{
    let mut i: usize = 0;
    while i < value.len()
        invariant
            i <= value@.len(),
            forall|j: int| 0 <= j < i ==> is_value_byte(#[trigger] value@[j]),
        decreases value@.len() - i,
    {
        let b = value[i];
        if !((b >= 32 && b != 127) || b == 9) {
            return false;
        }
        i = i + 1;
    }
    true
}

/// Tells whether all the header fields can be sent.
pub fn fields_are_sendable(headers: &Vec<Header>) -> (yes: bool)
    ensures
        yes == sendable(header_views(headers@)),
{
    let mut i: usize = 0;
    while i < headers.len()
        invariant
            i <= headers@.len(),
            forall|j: int| 0 <= j < i ==> sendable_field(#[trigger] header_views(headers@)[j]),
        decreases headers@.len() - i,
    {
        let ok = name_is_valid(headers[i].name.as_str()) && value_is_valid(
            headers[i].value.as_slice(),
        );
        proof {
            assert(header_views(headers@)[i as int] == headers@[i as int]@);
        }
        if !ok {
            return false;
        }
        i = i + 1;
    }
    true
}

/// A valid HTTP status is a number of three digits.
pub open spec fn is_valid_status(code: u16) -> bool {
    100 <= code && code <= 999
}

/// Tells whether `code` is a valid HTTP status.
pub fn status_is_valid(code: u16) -> (valid: bool)
    ensures
        valid == is_valid_status(code),
{
    100 <= code && code <= 999
}

/// Status and header fields of a response, without its body.
#[derive(Clone, Debug, PartialEq, Eq)]
pub struct ResponseHead {
    pub status: u16,
    pub headers: Vec<Header>,
}

/// A response head as a mathematical value.
pub struct ResponseHeadView {
    pub status: u16,
    pub headers: Seq<HeaderView>,
}

impl View for ResponseHead {
    type V = ResponseHeadView;

    open spec fn view(&self) -> ResponseHeadView {
        ResponseHeadView { status: self.status, headers: header_views(self.headers@) }
    }
}

/// A complete response.
#[derive(Clone, Debug, PartialEq, Eq)]
pub struct HttpResponse {
    pub status: u16,
    pub headers: Vec<Header>,
    pub body: Vec<u8>,
}

/// A response as a mathematical value.
pub struct HttpResponseView {
    pub status: u16,
    pub headers: Seq<HeaderView>,
    pub body: Seq<u8>,
}

impl View for HttpResponse {
    type V = HttpResponseView;

    open spec fn view(&self) -> HttpResponseView {
        HttpResponseView {
            status: self.status,
            headers: header_views(self.headers@),
            body: self.body@,
        }
    }
}

/// The response with the given status, no header fields and no body.
pub open spec fn bare_response(status: u16) -> HttpResponseView {
    HttpResponseView { status, headers: Seq::empty(), body: Seq::empty() }
}

impl HttpResponse {
    /// A response with the given status, no header fields and no body.
    pub fn empty(status: u16) -> (response: HttpResponse)
        ensures
            response@ == bare_response(status),
    {
        let response = HttpResponse { status, headers: Vec::new(), body: Vec::new() };
        assert(header_views(response.headers@) =~= Seq::<HeaderView>::empty());
        response
    }
}

} // verus!
