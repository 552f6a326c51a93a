//! The head of a streamed response: status and header fields taken from the
//! metadata document, or defaults where the reply has none.

use crate::error::GatewayError;
use crate::message::{
    fields_are_sendable, header_views, is_valid_status, sendable, sendable_field, status_is_valid,
    valid_header_name, valid_header_value, value_is_valid, Header, HeaderView, ResponseHead,
    ResponseHeadView,
};
use crate::text::{
    ascii_bytes, ascii_lower, copy_str, literal_bytes, str_eq, texts, to_ascii_lowercase,
};
use vstd::prelude::*;
use vstd::slice::slice_to_vec;
use vstd::string::StrSliceExecFns;
use vstd::utf8::{encode_utf8, is_ascii_chars_encode_utf8};

verus! {

/// What the metadata document of a streamed reply says.
#[derive(Clone, Debug)]
pub struct MetadataPrelude {
    /// `statusCode`: the status of the response.
    pub status_code: u16,
    /// `headers`: header fields of the response.
    pub headers: Vec<Header>,
    /// `cookies`: one `Set-Cookie` value each, in order.
    pub cookies: Vec<String>,
}

/// A metadata document as a mathematical value.
pub struct PreludeView {
    pub status_code: u16,
    pub headers: Seq<HeaderView>,
    pub cookies: Seq<Seq<char>>,
}

impl View for MetadataPrelude {
    type V = PreludeView;

    open spec fn view(&self) -> PreludeView {
        PreludeView {
            status_code: self.status_code,
            headers: header_views(self.headers@),
            cookies: texts(self.cookies@),
        }
    }
}

/// The document that stands in for one that cannot be understood: status
/// 200, no header fields, no cookies.
pub open spec fn default_prelude() -> PreludeView {
    PreludeView { status_code: 200, headers: Seq::empty(), cookies: Seq::empty() }
}

impl Default for MetadataPrelude {
    fn default() -> (prelude: MetadataPrelude)
        ensures
            prelude@ == default_prelude(),
    {
        let prelude = MetadataPrelude { status_code: 200, headers: Vec::new(), cookies: Vec::new() };
        proof {
            assert(header_views(prelude.headers@) =~= Seq::<HeaderView>::empty());
            assert(texts(prelude.cookies@) =~= Seq::<Seq<char>>::empty());
        }
        prelude
    }
}

/// The view of an optional document.
pub open spec fn opt_prelude(parsed: Option<MetadataPrelude>) -> Option<PreludeView> {
    match parsed {
        Some(p) => Some(p@),
        None => None,
    }
}

/// Every cookie can be sent as the value of a header field.
pub open spec fn cookies_can_be_sent(cookies: Seq<Seq<char>>) -> bool {
    forall|i: int| 0 <= i < cookies.len() ==> valid_header_value(encode_utf8(#[trigger] cookies[i]))
}

/// A response head can be built from the document: its status is a valid
/// HTTP status, and its header fields and cookies can be sent.
pub open spec fn well_formed(prelude: PreludeView) -> bool {
    &&& is_valid_status(prelude.status_code)
    &&& sendable(prelude.headers)
    &&& cookies_can_be_sent(prelude.cookies)
}

/// The document that the head is built from: the parsed one, or the
/// default where parsing failed (`None`) or no head can be built from what
/// was parsed.
pub open spec fn effective_prelude(parsed: Option<PreludeView>) -> PreludeView {
    match parsed {
        Some(p) => if well_formed(p) {
            p
        } else {
            default_prelude()
        },
        None => default_prelude(),
    }
}

/// The name is `content-length`, in any case.
pub open spec fn is_content_length(name: Seq<char>) -> bool {
    ascii_lower(name) == "content-length"@
}

/// The header fields without any `content-length` field, in order.
pub open spec fn without_content_length(headers: Seq<HeaderView>) -> Seq<HeaderView>
    decreases headers.len(),
{
    if headers.len() == 0 {
        Seq::empty()
    } else {
        let front = without_content_length(headers.drop_last());
        if is_content_length(headers.last().name) {
            front
        } else {
            front.push(headers.last())
        }
    }
}

/// One `set-cookie` field for each cookie, in order.
pub open spec fn cookie_headers(cookies: Seq<Seq<char>>) -> Seq<HeaderView> {
    Seq::new(
        cookies.len(),
        |i: int| HeaderView { name: "set-cookie"@, value: encode_utf8(cookies[i]) },
    )
}

/// The head of a response whose reply starts with the document `prelude`:
/// its status, its header fields but for `content-length` (the length of a
/// streamed body is not known), then its cookies.
pub open spec fn prelude_head(prelude: PreludeView) -> ResponseHeadView {
    ResponseHeadView {
        status: prelude.status_code,
        headers: without_content_length(prelude.headers) + cookie_headers(prelude.cookies),
    }
}

/// The head of a response whose reply has no metadata document: status 200
/// and the content type of arbitrary bytes.
pub open spec fn default_head() -> ResponseHeadView {
    ResponseHeadView {
        status: 200,
        headers: seq![
            HeaderView {
                name: "content-type"@,
                value: ascii_bytes("application/octet-stream"@),
            },
        ],
    }
}

/// No `content-length` field is left among the filtered header fields.
pub proof fn lemma_without_content_length(headers: Seq<HeaderView>)
    ensures
        forall|i: int|
            0 <= i < without_content_length(headers).len() ==> !is_content_length(
                #[trigger] without_content_length(headers)[i].name,
            ),
    decreases headers.len(),
{
    if headers.len() > 0 {
        lemma_without_content_length(headers.drop_last());
        let front = without_content_length(headers.drop_last());
        let all = without_content_length(headers);
        assert forall|i: int| 0 <= i < all.len() implies !is_content_length(
            #[trigger] all[i].name,
        ) by {
            if i < front.len() {
                assert(all[i] == front[i]);
            }
        }
    }
}

/// The head built from a metadata document never holds a `content-length`
/// field, whatever the document says.
pub proof fn lemma_no_content_length_in_head(prelude: PreludeView)
    ensures
        forall|i: int|
            0 <= i < prelude_head(prelude).headers.len() ==> !is_content_length(
                #[trigger] prelude_head(prelude).headers[i].name,
            ),
{
    let kept = without_content_length(prelude.headers);
    let cookies = cookie_headers(prelude.cookies);
    lemma_without_content_length(prelude.headers);
    reveal_strlit("set-cookie");
    reveal_strlit("content-length");
    assert forall|i: int| 0 <= i < (kept + cookies).len() implies !is_content_length(
        #[trigger] (kept + cookies)[i].name,
    ) by {
        if i < kept.len() {
            assert((kept + cookies)[i] == kept[i]);
        } else {
            assert((kept + cookies)[i] == cookies[i - kept.len()]);
            assert(ascii_lower("set-cookie"@).len() == 10);
        }
    }
}

/// Filtering keeps only fields that were there.
proof fn lemma_filtered_are_sendable(headers: Seq<HeaderView>)
    requires
        sendable(headers),
    ensures
        sendable(without_content_length(headers)),
    decreases headers.len(),
{
    if headers.len() > 0 {
        let front = headers.drop_last();
        assert(sendable(front)) by {
            assert forall|i: int| 0 <= i < front.len() implies sendable_field(
                #[trigger] front[i],
            ) by {
                assert(front[i] == headers[i]);
            }
        }
        lemma_filtered_are_sendable(front);
        let kept = without_content_length(front);
        let all = without_content_length(headers);
        assert forall|i: int| 0 <= i < all.len() implies sendable_field(#[trigger] all[i]) by {
            if i < kept.len() {
                assert(all[i] == kept[i]);
            } else {
                assert(all[i] == headers[headers.len() - 1]);
            }
        }
    }
}

/// `set-cookie` and `content-type` are header names.
proof fn lemma_literal_names()
    ensures
        valid_header_name("set-cookie"@),
        valid_header_name("content-type"@),
        valid_header_value(ascii_bytes("application/octet-stream"@)),
{
    reveal_strlit("set-cookie");
    reveal_strlit("content-type");
    reveal_strlit("application/octet-stream");
    is_ascii_chars_encode_utf8("set-cookie"@);
    is_ascii_chars_encode_utf8("content-type"@);
}

/// Every head that is built from a well-formed document can be sent.
pub proof fn lemma_head_can_be_sent(prelude: PreludeView)
    requires
        well_formed(prelude),
    ensures
        is_valid_status(prelude_head(prelude).status),
        sendable(prelude_head(prelude).headers),
{
    let kept = without_content_length(prelude.headers);
    let cookies = cookie_headers(prelude.cookies);
    lemma_filtered_are_sendable(prelude.headers);
    lemma_literal_names();
    assert forall|i: int| 0 <= i < (kept + cookies).len() implies sendable_field(
        #[trigger] (kept + cookies)[i],
    ) by {
        if i < kept.len() {
            assert((kept + cookies)[i] == kept[i]);
        } else {
            let j = i - kept.len();
            assert((kept + cookies)[i] == cookies[j]);
            assert(valid_header_value(encode_utf8(prelude.cookies[j])));
        }
    }
}

/// Builds the head of a response whose reply has no metadata document.
pub fn default_response_head() -> (head: ResponseHead)
    ensures
        head@ == default_head(),
        is_valid_status(head@.status),
        sendable(head@.headers),
{
    proof {
        reveal_strlit("application/octet-stream");
        lemma_literal_names();
    }
    let mut headers: Vec<Header> = Vec::new();
    let field = Header {
        name: copy_str("content-type"),
        value: slice_to_vec(literal_bytes("application/octet-stream")),
    };
    headers.push(field);
    let head = ResponseHead { status: 200, headers };
    proof {
        assert(header_views(head.headers@) =~= default_head().headers);
        assert(sendable_field(default_head().headers[0]));
    }
    head
}

/// Tells whether every cookie can be sent as the value of a header field.
fn cookies_are_sendable(cookies: &Vec<String>) -> (yes: bool)
    ensures
        yes == cookies_can_be_sent(texts(cookies@)),
{
    let mut i: usize = 0;
    while i < cookies.len()
        invariant
            i <= cookies@.len(),
            forall|j: int|
                0 <= j < i ==> valid_header_value(encode_utf8(#[trigger] texts(cookies@)[j])),
        decreases cookies@.len() - i,
    {
        proof {
            assert(texts(cookies@)[i as int] == cookies@[i as int]@);
        }
        if !value_is_valid(cookies[i].as_str().as_bytes()) {
            return false;
        }
        i = i + 1;
    }
    true
}

/// Checks what was read from a metadata document. A document that could
/// not be understood (`None`) and one from which no response head can be
/// built are malformed.
pub fn validate_prelude(parsed: Option<MetadataPrelude>) -> (checked: Result<
    MetadataPrelude,
    GatewayError,
>)
    ensures
        match opt_prelude(parsed) {
            Some(p) => if well_formed(p) {
                checked matches Ok(q) && q@ == p
            } else {
                checked == Err::<MetadataPrelude, GatewayError>(GatewayError::MalformedPrelude)
            },
            None => checked == Err::<MetadataPrelude, GatewayError>(
                GatewayError::MalformedPrelude,
            ),
        },
{
    match parsed {
        Some(p) => if status_is_valid(p.status_code) && fields_are_sendable(&p.headers)
            && cookies_are_sendable(&p.cookies) {
            Ok(p)
        } else {
            Err(GatewayError::MalformedPrelude)
        },
        None => Err(GatewayError::MalformedPrelude),
    }
}

/// Builds the head of a response from the metadata document of its reply.
/// `parsed` is `None` where the document could not be understood; the
/// default document then stands in for it, as it does for every malformed
/// document. The head can always be sent, and it never holds a
/// `content-length` field.
pub fn prelude_response_head(parsed: Option<MetadataPrelude>) -> (head: ResponseHead)
    ensures
        head@ == prelude_head(effective_prelude(opt_prelude(parsed))),
        is_valid_status(head@.status),
        sendable(head@.headers),
        forall|i: int|
            0 <= i < head@.headers.len() ==> !is_content_length(#[trigger] head@.headers[i].name),
{
    proof {
        lemma_no_content_length_in_head(effective_prelude(opt_prelude(parsed)));
        assert(well_formed(default_prelude()));
        lemma_head_can_be_sent(effective_prelude(opt_prelude(parsed)));
    }
    let prelude = match validate_prelude(parsed) {
        Ok(p) => p,
        Err(_) => MetadataPrelude::default(),
    };
    let ghost given = header_views(prelude.headers@);
    let mut headers: Vec<Header> = Vec::new();
    let mut i: usize = 0;
    proof {
        assert(header_views(headers@) =~= without_content_length(given.take(0)));
    }
    while i < prelude.headers.len()
        invariant
            i <= prelude.headers@.len(),
            given == header_views(prelude.headers@),
            header_views(headers@) == without_content_length(given.take(i as int)),
        decreases prelude.headers@.len() - i,
    {
        let ghost before = header_views(headers@);
        let field = &prelude.headers[i];
        proof {
            assert(given.take(i + 1).drop_last() == given.take(i as int));
            assert(given.take(i + 1).last() == field@);
        }
        let lower = to_ascii_lowercase(field.name.as_str());
        if !str_eq(lower.as_str(), "content-length") {
            headers.push(field.clone());
            proof {
                assert(header_views(headers@) =~= before.push(field@));
            }
        }
        i = i + 1;
    }
    proof {
        assert(given.take(given.len() as int) == given);
    }
    let ghost kept = header_views(headers@);
    let ghost cookies = cookie_headers(texts(prelude.cookies@));
    let mut j: usize = 0;
    proof {
        assert(kept + cookies.take(0) =~= kept);
    }
    while j < prelude.cookies.len()
        invariant
            j <= prelude.cookies@.len(),
            cookies == cookie_headers(texts(prelude.cookies@)),
            header_views(headers@) == kept + cookies.take(j as int),
        decreases prelude.cookies@.len() - j,
    {
        let ghost before = header_views(headers@);
        let field = Header {
            name: copy_str("set-cookie"),
            value: prelude.cookies[j].as_str().as_bytes_vec(),
        };
        headers.push(field);
        proof {
            assert(header_views(headers@) =~= before.push(field@));
            assert(cookies[j as int] == field@);
            assert(kept + cookies.take(j + 1) =~= (kept + cookies.take(j as int)).push(field@));
        }
        j = j + 1;
    }
    proof {
        assert(cookies.take(cookies.len() as int) == cookies);
    }
    let head = ResponseHead { status: prelude.status_code, headers };
    proof {
        let built = prelude_head(effective_prelude(opt_prelude(parsed)));
        assert(head@ == built);
        assert forall|i: int| 0 <= i < head@.headers.len() implies !is_content_length(
            #[trigger] head@.headers[i].name,
        ) by {
            assert(!is_content_length(built.headers[i].name));
        }
    }
    head
}

} // verus!
