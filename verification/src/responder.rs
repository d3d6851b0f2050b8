//! The responder: answers one http-style request against a [`Pack`].
//!
//! A request is handled in fixed order: method gate (GET and HEAD only),
//! path lookup, conditional-request check against the etag, encoding
//! negotiation, response assembly. HEAD follows the same path as GET but
//! suppresses the body while keeping every header, content-length
//! included.

use vstd::prelude::*;
use vstd::utf8::{decode_utf8, encode_utf8, valid_utf8};
use crate::body::Body;
use crate::content_encoding::{
    spec_accepts, spec_negotiate, spec_selected_bytes, ContentContentEncoding, EncodingAccepted,
};
use crate::file::{opt_bytes_view, FileView};
use crate::pack::Pack;
use crate::text::bytes_eq;

verus! {

/// Http method of a request, as far as the responder distinguishes them:
/// GET and HEAD are served, anything else is refused.
#[derive(Clone, Copy, PartialEq, Eq, Structural, Debug)]
pub enum Method {
    /// GET: headers and body.
    Get,
    /// HEAD: the same headers as GET, no body.
    Head,
    /// Any other method.
    Other,
}

/// The request headers the responder reads, as raw header values.
#[derive(Debug)]
pub struct RequestHeaders {
    /// The `if-none-match` header value, when present.
    pub if_none_match: Option<Vec<u8>>,
    /// The `accept-encoding` header value, when present.
    pub accept_encoding: Option<Vec<u8>>,
}

impl RequestHeaders {
    /// A request without headers.
    pub fn new() -> (r: Self)
        ensures
            r.if_none_match is None,
            r.accept_encoding is None,
    {
        Self { if_none_match: None, accept_encoding: None }
    }
}

impl Default for RequestHeaders {
    /// A request without headers.
    fn default() -> (r: Self)
        ensures
            r.if_none_match is None,
            r.accept_encoding is None,
    {
        Self::new()
    }
}

/// Mathematical model of a [`Response`].
pub struct ResponseView {
    /// Status code.
    pub status: int,
    /// The `content-type` header, when sent.
    pub content_type: Option<Seq<char>>,
    /// The `etag` header, when sent.
    pub etag: Option<Seq<char>>,
    /// The `cache-control` header, when sent.
    pub cache_control: Option<Seq<char>>,
    /// The `content-length` header, when sent.
    pub content_length: Option<int>,
    /// The `content-encoding` header, when sent.
    pub content_encoding: Option<Seq<char>>,
    /// The body bytes.
    pub body: Seq<u8>,
}

/// View of an optional owned string.
pub open spec fn opt_string_view(o: Option<String>) -> Option<Seq<char>> {
    match o {
        Some(s) => Some(s@),
        None => None,
    }
}

/// View of an optional length.
pub open spec fn opt_u64_view(o: Option<u64>) -> Option<int> {
    match o {
        Some(n) => Some(n as int),
        None => None,
    }
}

/// A response: status code, the headers the responder sets, and the body.
#[derive(Debug)]
pub struct Response<'p> {
    /// Status code.
    pub status: u16,
    /// The `content-type` header, when sent.
    pub content_type: Option<String>,
    /// The `etag` header, when sent.
    pub etag: Option<String>,
    /// The `cache-control` header, when sent.
    pub cache_control: Option<String>,
    /// The `content-length` header, when sent.
    pub content_length: Option<u64>,
    /// The `content-encoding` header, when sent.
    pub content_encoding: Option<String>,
    /// The body.
    pub body: Body<'p>,
}

impl<'p> View for Response<'p> {
    type V = ResponseView;

    open spec fn view(&self) -> ResponseView {
        ResponseView {
            status: self.status as int,
            content_type: opt_string_view(self.content_type),
            etag: opt_string_view(self.etag),
            cache_control: opt_string_view(self.cache_control),
            content_length: opt_u64_view(self.content_length),
            content_encoding: opt_string_view(self.content_encoding),
            body: self.body@,
        }
    }
}

/// Error of [`Responder::respond`].
#[derive(Clone, Copy, PartialEq, Eq, Structural, Debug)]
pub enum ResponderRespondError {
    /// The method is neither GET nor HEAD; maps to 405.
    HttpMethodNotSupported,
    /// No file sits under the request path; maps to 404.
    PackPathNotFound,
    /// The `accept-encoding` header value is not UTF-8; maps to 400.
    UnparsableAcceptEncoding,
}

impl ResponderRespondError {
    /// The status code this error maps to.
    pub open spec fn spec_status_code(self) -> int {
        match self {
            ResponderRespondError::HttpMethodNotSupported => 405,
            ResponderRespondError::PackPathNotFound => 404,
            ResponderRespondError::UnparsableAcceptEncoding => 400,
        }
    }

    /// The status code this error maps to.
    pub fn status_code(&self) -> (r: u16)
        ensures
            r as int == self.spec_status_code(),
    {
        match self {
            ResponderRespondError::HttpMethodNotSupported => 405,
            ResponderRespondError::PackPathNotFound => 404,
            ResponderRespondError::UnparsableAcceptEncoding => 400,
        }
    }

    /// The default response for this error: its status code, no headers
    /// and an empty body.
    pub open spec fn spec_response(self) -> ResponseView {
        ResponseView {
            status: self.spec_status_code(),
            content_type: None,
            etag: None,
            cache_control: None,
            content_length: None,
            content_encoding: None,
            body: Seq::empty(),
        }
    }

    /// Creates the default response for this error.
    pub fn into_response(&self) -> (r: Response<'static>)
        ensures
            r@ == self.spec_response(),
    {
        Response {
            status: self.status_code(),
            content_type: None,
            etag: None,
            cache_control: None,
            content_length: None,
            content_encoding: None,
            body: Body::empty(),
        }
    }
}

/// The 304 response for a matching conditional request: only the etag
/// header is sent, everything else is omitted on purpose.
pub open spec fn spec_not_modified_response(f: FileView) -> ResponseView {
    ResponseView {
        status: 304,
        content_type: None,
        etag: Some(f.etag),
        cache_control: None,
        content_length: None,
        content_encoding: None,
        body: Seq::empty(),
    }
}

/// The full response for a served file under the given method and
/// negotiated encoding acceptance: every header is set from the file, the
/// body is the negotiated bytes for GET and empty for HEAD, while
/// content-length always counts the negotiated bytes.
pub open spec fn spec_full_response(
    f: FileView,
    method: Method,
    gzip_ok: bool,
    brotli_ok: bool,
) -> ResponseView {
    let enc = spec_negotiate(gzip_ok, brotli_ok, f);
    let selected = spec_selected_bytes(f, enc);
    ResponseView {
        status: 200,
        content_type: Some(f.content_type),
        etag: Some(f.etag),
        cache_control: Some(f.cache_control.spec_header_value()),
        content_length: Some(selected.len() as int),
        content_encoding: Some(enc.spec_label()),
        body: if method is Head {
            Seq::empty()
        } else {
            selected
        },
    }
}

/// What responding yields, for every request: the request walks the
/// method gate, the path lookup, the conditional check, the encoding
/// negotiation and the response assembly, in that order.
pub open spec fn spec_respond(
    pack: Map<Seq<char>, FileView>,
    method: Method,
    path: Seq<char>,
    if_none_match: Option<Seq<u8>>,
    accept_encoding: Option<Seq<u8>>,
) -> Result<ResponseView, ResponderRespondError> {
    if method is Other {
        Err(ResponderRespondError::HttpMethodNotSupported)
    } else if !pack.contains_key(path) {
        Err(ResponderRespondError::PackPathNotFound)
    } else {
        let f = pack[path];
        if if_none_match == Some(encode_utf8(f.etag)) {
            Ok(spec_not_modified_response(f))
        } else if (accept_encoding matches Some(ae) && !valid_utf8(ae)) {
            Err(ResponderRespondError::UnparsableAcceptEncoding)
        } else {
            let gzip_ok = match accept_encoding {
                None => false,
                Some(ae) => spec_accepts(decode_utf8(ae), "gzip"@),
            };
            let brotli_ok = match accept_encoding {
                None => false,
                Some(ae) => spec_accepts(decode_utf8(ae), "br"@),
            };
            Ok(spec_full_response(f, method, gzip_ok, brotli_ok))
        }
    }
}

/// Responder service: looks request paths up in a [`Pack`] and produces
/// http-style responses. It borrows the pack and holds no mutable state,
/// so any number of responders and requests may share one pack.
#[derive(Debug)]
pub struct Responder<'p> {
    pack: &'p Pack,
}

impl<'p> View for Responder<'p> {
    type V = Map<Seq<char>, FileView>;

    closed spec fn view(&self) -> Map<Seq<char>, FileView> {
        self.pack@
    }
}

impl<'p> Responder<'p> {
    /// Creates a responder serving the given pack.
    pub fn new(pack: &'p Pack) -> (r: Self)
        ensures
            r@ == pack@,
    {
        Self { pack }
    }

    /// Produces the response for one request, or the error for the caller
    /// to handle; see [`Self::respond_flatten`] for default error
    /// responses.
    pub fn respond(&self, method: &Method, path: &str, headers: &RequestHeaders) -> (r: Result<
        Response<'p>,
        ResponderRespondError,
    >)
        ensures
            match r {
                Ok(resp) => spec_respond(
                    self@,
                    *method,
                    path@,
                    opt_bytes_view(headers.if_none_match),
                    opt_bytes_view(headers.accept_encoding),
                ) == Ok::<ResponseView, ResponderRespondError>(resp@),
                Err(e) => spec_respond(
                    self@,
                    *method,
                    path@,
                    opt_bytes_view(headers.if_none_match),
                    opt_bytes_view(headers.accept_encoding),
                ) == Err::<ResponseView, ResponderRespondError>(e),
            },
    {
        // only GET and HEAD are served
        let body_in_response = match method {
            Method::Get => true,
            Method::Head => false,
            Method::Other => {
                return Err(ResponderRespondError::HttpMethodNotSupported);
            },
        };
        // look the file up under the raw request path
        let file = match self.pack.get_file_by_path(path) {
            Some(file) => file,
            None => {
                return Err(ResponderRespondError::PackPathNotFound);
            },
        };
        // a matching `if-none-match` validator short-circuits to 304
        match &headers.if_none_match {
            Some(inm) => {
                if bytes_eq(inm.as_slice(), file.etag().as_bytes()) {
                    let response = Response {
                        status: 304,
                        content_type: None,
                        etag: Some(file.etag().to_owned()),
                        cache_control: None,
                        content_length: None,
                        content_encoding: None,
                        body: Body::empty(),
                    };
                    return Ok(response);
                }
            },
            None => {},
        }
        // negotiate the encoding from `accept-encoding`
        let encoding_accepted = match EncodingAccepted::from_headers(headers) {
            Ok(encoding_accepted) => encoding_accepted,
            Err(_) => {
                return Err(ResponderRespondError::UnparsableAcceptEncoding);
            },
        };
        let resolved = ContentContentEncoding::resolve(&encoding_accepted, file);
        // assemble the response
        let response = Response {
            status: 200,
            content_type: Some(file.content_type().to_owned()),
            etag: Some(file.etag().to_owned()),
            cache_control: Some(file.cache_control().cache_control()),
            content_length: Some(resolved.content.len() as u64),
            content_encoding: Some(resolved.content_encoding.as_str().to_owned()),
            body: if body_in_response {
                Body::new(resolved.content)
            } else {
                Body::empty()
            },
        };
        Ok(response)
    }

    /// Like [`Self::respond`], but turns errors into their default
    /// responses: the mapped status code with no headers and empty body.
    pub fn respond_flatten(&self, method: &Method, path: &str, headers: &RequestHeaders) -> (r:
        Response<'p>)
        ensures
            r@ == (match spec_respond(
                self@,
                *method,
                path@,
                opt_bytes_view(headers.if_none_match),
                opt_bytes_view(headers.accept_encoding),
            ) {
                Ok(resp) => resp,
                Err(e) => e.spec_response(),
            }),
    {
        match self.respond(method, path, headers) {
            Ok(response) => response,
            Err(responder_error) => responder_error.into_response(),
        }
    }
}

/// Conditional request: a GET whose `if-none-match` value equals the
/// stored file's etag is answered 304 with only the etag header and an
/// empty body, whatever `accept-encoding` says.
pub proof fn lemma_conditional_request(
    pack: Map<Seq<char>, FileView>,
    path: Seq<char>,
    accept_encoding: Option<Seq<u8>>,
)
    requires
        pack.contains_key(path),
    ensures
        spec_respond(pack, Method::Get, path, Some(encode_utf8(pack[path].etag)), accept_encoding)
            == Ok::<ResponseView, ResponderRespondError>(spec_not_modified_response(pack[path])),
        spec_not_modified_response(pack[path]).status == 304,
        spec_not_modified_response(pack[path]).etag == Some(pack[path].etag),
        spec_not_modified_response(pack[path]).content_type is None,
        spec_not_modified_response(pack[path]).cache_control is None,
        spec_not_modified_response(pack[path]).content_length is None,
        spec_not_modified_response(pack[path]).content_encoding is None,
        spec_not_modified_response(pack[path]).body == Seq::<u8>::empty(),
{
}

/// HEAD parity: a HEAD request yields exactly the headers of the
/// equivalent GET, content-length included, with an empty body; errors
/// are the same on both.
pub proof fn lemma_head_parity(
    pack: Map<Seq<char>, FileView>,
    path: Seq<char>,
    if_none_match: Option<Seq<u8>>,
    accept_encoding: Option<Seq<u8>>,
)
    ensures
        ({
            let get = spec_respond(pack, Method::Get, path, if_none_match, accept_encoding);
            let head = spec_respond(pack, Method::Head, path, if_none_match, accept_encoding);
            match (get, head) {
                (Ok(g), Ok(h)) => h.status == g.status && h.content_type == g.content_type
                    && h.etag == g.etag && h.cache_control == g.cache_control && h.content_length
                    == g.content_length && h.content_encoding == g.content_encoding && h.body
                    == Seq::<u8>::empty(),
                (Err(ge), Err(he)) => ge == he,
                _ => false,
            }
        }),
{
}

/// Unknown path: a GET for a path absent from the pack fails with
/// [`ResponderRespondError::PackPathNotFound`], whose default response is
/// 404 with an empty body.
pub proof fn lemma_unknown_path(
    pack: Map<Seq<char>, FileView>,
    path: Seq<char>,
    if_none_match: Option<Seq<u8>>,
    accept_encoding: Option<Seq<u8>>,
)
    requires
        !pack.contains_key(path),
    ensures
        spec_respond(pack, Method::Get, path, if_none_match, accept_encoding) == Err::<
            ResponseView,
            ResponderRespondError,
        >(ResponderRespondError::PackPathNotFound),
        ResponderRespondError::PackPathNotFound.spec_response().status == 404,
        ResponderRespondError::PackPathNotFound.spec_response().body == Seq::<u8>::empty(),
{
}

/// Unsupported method: any method other than GET and HEAD fails with
/// [`ResponderRespondError::HttpMethodNotSupported`], whose default
/// response is 405 with an empty body, even when the path exists.
pub proof fn lemma_unsupported_method(
    pack: Map<Seq<char>, FileView>,
    path: Seq<char>,
    if_none_match: Option<Seq<u8>>,
    accept_encoding: Option<Seq<u8>>,
)
    ensures
        spec_respond(pack, Method::Other, path, if_none_match, accept_encoding) == Err::<
            ResponseView,
            ResponderRespondError,
        >(ResponderRespondError::HttpMethodNotSupported),
        ResponderRespondError::HttpMethodNotSupported.spec_response().status == 405,
        ResponderRespondError::HttpMethodNotSupported.spec_response().body == Seq::<u8>::empty(),
{
}

} // verus!
