//! Requests and responses, reduced to what the service reads and writes.

use crate::header::{canonical, is_field_value};
use crate::octets::bytes_of;
use vstd::prelude::*;
use vstd::string::*;

verus! {

/// The view of a byte string that may be absent.
pub open spec fn maybe(bytes: Option<Vec<u8>>) -> Option<Seq<u8>> {
    match bytes {
        Some(b) => Some(b@),
        None => None,
    }
}

/// What the service reads of a request.
#[derive(Clone, Debug, PartialEq, Eq)]
pub struct Request {
    /// The method's name, as in the request line.
    pub method: Vec<u8>,
    /// The path of the request target, without a query.
    pub path: Vec<u8>,
    /// The value of the `Origin` header.
    pub origin: Option<Vec<u8>>,
    /// The value of the `Access-Control-Request-Method` header.
    pub request_method: Option<Vec<u8>>,
    /// The value of the `Access-Control-Request-Headers` header.
    pub request_headers: Option<Vec<u8>>,
}

/// A `Request` as mathematical values.
pub struct RequestView {
    pub method: Seq<u8>,
    pub path: Seq<u8>,
    pub origin: Option<Seq<u8>>,
    pub request_method: Option<Seq<u8>>,
    pub request_headers: Option<Seq<u8>>,
}

impl View for Request {
    type V = RequestView;

    open spec fn view(&self) -> RequestView {
        RequestView {
            method: self.method@,
            path: self.path@,
            origin: maybe(self.origin),
            request_method: maybe(self.request_method),
            request_headers: maybe(self.request_headers),
        }
    }
}

impl Request {
    /// A request with the given method and path and none of the headers that
    /// the service reads.
    pub fn new(method: &str, path: &str) -> (request: Request)
        ensures
            request@ == (RequestView {
                method: bytes_of(method),
                path: bytes_of(path),
                origin: None,
                request_method: None,
                request_headers: None,
            }),
    {
        Request {
            method: method.as_bytes_vec(),
            path: path.as_bytes_vec(),
            origin: None,
            request_method: None,
            request_headers: None,
        }
    }
}

/// The kind of body that a response carries.
#[derive(Clone, Copy, Debug, PartialEq, Eq, Structural)]
pub enum ContentType {
    /// Plain text in UTF-8.
    Text,
    /// A JSON document.
    Json,
}

impl ContentType {
    /// The value of the `Content-Type` header for this kind of body.
    pub open spec fn value(self) -> Seq<u8> {
        match self {
            ContentType::Text => bytes_of("text/plain; charset=utf-8"),
            ContentType::Json => bytes_of("application/json"),
        }
    }

    /// The value of the `Content-Type` header for this kind of body.
    pub fn as_str(&self) -> (text: &'static str)
        ensures
            bytes_of(text) == self.value(),
    {
        match self {
            ContentType::Text => "text/plain; charset=utf-8",
            ContentType::Json => "application/json",
        }
    }
}

/// What the service writes of a response.
#[derive(Clone, Debug, PartialEq, Eq)]
pub struct Response {
    /// The status code.
    pub status: u16,
    /// The kind of the body; none where the body is empty.
    pub content_type: Option<ContentType>,
    /// The value of the `Access-Control-Allow-Origin` header.
    pub allow_origin: Option<Vec<u8>>,
    /// The value of the `Access-Control-Allow-Methods` header.
    pub allow_methods: Option<Vec<u8>>,
    /// The value of the `Access-Control-Allow-Headers` header.
    pub allow_headers: Option<Vec<u8>>,
    /// The body.
    pub body: Vec<u8>,
}

/// A `Response` as mathematical values.
pub struct ResponseView {
    pub status: nat,
    pub content_type: Option<ContentType>,
    pub allow_origin: Option<Seq<u8>>,
    pub allow_methods: Option<Seq<u8>>,
    pub allow_headers: Option<Seq<u8>>,
    pub body: Seq<u8>,
}

impl View for Response {
    type V = ResponseView;

    open spec fn view(&self) -> ResponseView {
        ResponseView {
            status: self.status as nat,
            content_type: self.content_type,
            allow_origin: maybe(self.allow_origin),
            allow_methods: maybe(self.allow_methods),
            allow_headers: maybe(self.allow_headers),
            body: self.body@,
        }
    }
}

/// A header line of a response.
#[derive(Clone, Debug, PartialEq, Eq)]
pub struct Header {
    pub name: &'static str,
    pub value: Vec<u8>,
}

/// A header line as mathematical values.
pub struct HeaderView {
    pub name: Seq<u8>,
    pub value: Seq<u8>,
}

impl View for Header {
    type V = HeaderView;

    open spec fn view(&self) -> HeaderView {
        HeaderView { name: bytes_of(self.name), value: self.value@ }
    }
}

/// The views of a list of header lines, in the list's order.
pub open spec fn lines(headers: Seq<Header>) -> Seq<HeaderView> {
    Seq::new(headers.len(), |i: int| headers[i]@)
}

/// The line for the header `name`, where `value` is there.
pub open spec fn line(name: &str, value: Option<Seq<u8>>) -> Seq<HeaderView> {
    match value {
        Some(v) => seq![HeaderView { name: bytes_of(name), value: v }],
        None => Seq::empty(),
    }
}

/// The value of the `Content-Type` header for a body of the given kind.
pub open spec fn content_type_value(kind: Option<ContentType>) -> Option<Seq<u8>> {
    match kind {
        Some(k) => Some(k.value()),
        None => None,
    }
}

impl ResponseView {
    /// A response with the status 200 and the body `text` as plain text.
    pub open spec fn text(text: Seq<u8>) -> ResponseView {
        ResponseView {
            status: 200,
            content_type: Some(ContentType::Text),
            allow_origin: None,
            allow_methods: None,
            allow_headers: None,
            body: text,
        }
    }

    /// A response with the status 200 and the body `document` as JSON.
    pub open spec fn json(document: Seq<u8>) -> ResponseView {
        ResponseView {
            status: 200,
            content_type: Some(ContentType::Json),
            allow_origin: None,
            allow_methods: None,
            allow_headers: None,
            body: document,
        }
    }

    /// A response with the given status, no headers and no body.
    pub open spec fn empty(status: nat) -> ResponseView {
        ResponseView {
            status,
            content_type: None,
            allow_origin: None,
            allow_methods: None,
            allow_headers: None,
            body: Seq::empty(),
        }
    }

    /// Whether each header value that the response holds can be sent.
    pub open spec fn sendable(self) -> bool {
        &&& self.allow_origin matches Some(v) ==> is_field_value(v)
        &&& self.allow_methods matches Some(v) ==> is_field_value(v)
        &&& self.allow_headers matches Some(v) ==> is_field_value(v)
    }

    /// The header lines of the response, in the order in which they are
    /// written: the kind of the body, then what the cross-origin policy
    /// allows.
    pub open spec fn header_lines(self) -> Seq<HeaderView> {
        line("content-type", content_type_value(self.content_type)) + line(
            "access-control-allow-origin",
            self.allow_origin,
        ) + line("access-control-allow-methods", self.allow_methods) + line(
            "access-control-allow-headers",
            self.allow_headers,
        )
    }
}

impl Response {
    /// A response with the status 200 and the body `text` as plain text.
    pub fn text(text: &str) -> (response: Response)
        ensures
            response@ == ResponseView::text(bytes_of(text)),
    {
        Response {
            status: 200,
            content_type: Some(ContentType::Text),
            allow_origin: None,
            allow_methods: None,
            allow_headers: None,
            body: text.as_bytes_vec(),
        }
    }

    /// A response with the status 200 and the body `document` as JSON.
    pub fn json(document: Vec<u8>) -> (response: Response)
        ensures
            response@ == ResponseView::json(document@),
    {
        Response {
            status: 200,
            content_type: Some(ContentType::Json),
            allow_origin: None,
            allow_methods: None,
            allow_headers: None,
            body: document,
        }
    }

    /// A response with the given status, no headers and no body.
    pub fn empty(status: u16) -> (response: Response)
        ensures
            response@ == ResponseView::empty(status as nat),
    {
        Response {
            status,
            content_type: None,
            allow_origin: None,
            allow_methods: None,
            allow_headers: None,
            body: Vec::new(),
        }
    }

    /// The header lines of the response, in the order in which they are
    /// written. Each name is a header name in its canonical form; each value
    /// can be sent where the response is sendable.
    pub fn headers(&self) -> (headers: Vec<Header>)
        ensures
            lines(headers@) == self@.header_lines(),
            forall|i: int|
                0 <= i < headers@.len() ==> canonical(#[trigger] lines(headers@)[i].name) == Some(
                    lines(headers@)[i].name,
                ),
            self@.sendable() ==> forall|i: int|
                0 <= i < headers@.len() ==> is_field_value(#[trigger] lines(headers@)[i].value),
    {
        let mut headers: Vec<Header> = Vec::new();
        proof {
            lemma_header_names();
        }
        if let Some(kind) = self.content_type {
            headers.push(Header { name: "content-type", value: kind.as_str().as_bytes_vec() });
        }
        assert(lines(headers@) =~= line("content-type", content_type_value(self.content_type)));
        if let Some(value) = &self.allow_origin {
            headers.push(Header { name: "access-control-allow-origin", value: value.clone() });
        }
        assert(lines(headers@) =~= line("content-type", content_type_value(self.content_type))
            + line("access-control-allow-origin", self@.allow_origin));
        if let Some(value) = &self.allow_methods {
            headers.push(Header { name: "access-control-allow-methods", value: value.clone() });
        }
        assert(lines(headers@) =~= line("content-type", content_type_value(self.content_type))
            + line("access-control-allow-origin", self@.allow_origin) + line(
            "access-control-allow-methods",
            self@.allow_methods,
        ));
        if let Some(value) = &self.allow_headers {
            headers.push(Header { name: "access-control-allow-headers", value: value.clone() });
        }
        assert(lines(headers@) =~= self@.header_lines());
        headers
    }
}

/// The four header names that a response may carry are canonical, and the
/// two values of `Content-Type` can be sent.
pub proof fn lemma_header_names()
    ensures
        canonical(bytes_of("content-type")) == Some(bytes_of("content-type")),
        canonical(bytes_of("access-control-allow-origin")) == Some(
            bytes_of("access-control-allow-origin"),
        ),
        canonical(bytes_of("access-control-allow-methods")) == Some(
            bytes_of("access-control-allow-methods"),
        ),
        canonical(bytes_of("access-control-allow-headers")) == Some(
            bytes_of("access-control-allow-headers"),
        ),
        is_field_value(ContentType::Text.value()),
        is_field_value(ContentType::Json.value()),
{
    broadcast use is_ascii_spec_bytes;

    reveal_strlit("content-type");
    reveal_strlit("access-control-allow-origin");
    reveal_strlit("access-control-allow-methods");
    reveal_strlit("access-control-allow-headers");
    reveal_strlit("text/plain; charset=utf-8");
    reveal_strlit("application/json");
    assert(is_ascii("content-type"));
    assert(is_ascii("access-control-allow-origin"));
    assert(is_ascii("access-control-allow-methods"));
    assert(is_ascii("access-control-allow-headers"));
    assert(is_ascii("text/plain; charset=utf-8"));
    assert(is_ascii("application/json"));
    assert(crate::octets::lowered(bytes_of("content-type")) =~= bytes_of("content-type"));
    assert(crate::octets::lowered(bytes_of("access-control-allow-origin")) =~= bytes_of(
        "access-control-allow-origin",
    ));
    assert(crate::octets::lowered(bytes_of("access-control-allow-methods")) =~= bytes_of(
        "access-control-allow-methods",
    ));
    assert(crate::octets::lowered(bytes_of("access-control-allow-headers")) =~= bytes_of(
        "access-control-allow-headers",
    ));
}

} // verus!
