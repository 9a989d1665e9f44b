//! The responses that the registry's handlers give, as plain values.
use vstd::prelude::*;

verus! {

/// The status of a response.
#[derive(Clone, Copy, Debug, PartialEq, Eq, Structural)]
pub enum Status {
    Okay,
    Created,
    Accepted,
    BadRequest,
    NotFound,
    InternalServerError,
}

/// The numeric HTTP status code.
pub open spec fn status_code(s: Status) -> u16 {
    match s {
        Status::Okay => 200,
        Status::Created => 201,
        Status::Accepted => 202,
        Status::BadRequest => 400,
        Status::NotFound => 404,
        Status::InternalServerError => 500,
    }
}

impl Status {
    /// The numeric HTTP status code.
    pub fn code(&self) -> (c: u16)
        ensures
            c == status_code(*self),
    {
        match self {
            Status::Okay => 200,
            Status::Created => 201,
            Status::Accepted => 202,
            Status::BadRequest => 400,
            Status::NotFound => 404,
            Status::InternalServerError => 500,
        }
    }
}

/// One header of a response, with its name as the handler writes it.
pub struct Header {
    pub name: String,
    pub value: String,
}

impl View for Header {
    type V = (Seq<char>, Seq<char>);

    open spec fn view(&self) -> (Seq<char>, Seq<char>) {
        (self.name@, self.value@)
    }
}

/// One entry of an error answer, as the distribution API words them.
pub struct RequestError {
    pub code: String,
    pub message: String,
    pub detail: String,
}

/// The view of a `RequestError`: code, message and detail.
pub struct ErrorView {
    pub code: Seq<char>,
    pub message: Seq<char>,
    pub detail: Seq<char>,
}

impl View for RequestError {
    type V = ErrorView;

    open spec fn view(&self) -> ErrorView {
        ErrorView { code: self.code@, message: self.message@, detail: self.detail@ }
    }
}

/// An error answer: a list of errors, sent as JSON.
pub struct RequestErrors {
    pub errors: Vec<RequestError>,
}

impl View for RequestErrors {
    type V = Seq<ErrorView>;

    open spec fn view(&self) -> Seq<ErrorView> {
        self.errors@.map_values(|e: RequestError| e@)
    }
}

/// The body of a response.
pub enum ResponseBody {
    /// These bytes, as they are.
    Bytes(Vec<u8>),
    /// The errors, sent as the JSON object `{"errors": [...]}`.
    Errors(RequestErrors),
    /// The JSON object `{"status": ...}` with this text.
    StatusJson(String),
}

/// The view of a `ResponseBody`.
pub enum BodyView {
    Bytes(Seq<u8>),
    Errors(Seq<ErrorView>),
    StatusJson(Seq<char>),
}

impl View for ResponseBody {
    type V = BodyView;

    open spec fn view(&self) -> BodyView {
        match self {
            ResponseBody::Bytes(b) => BodyView::Bytes(b@),
            ResponseBody::Errors(e) => BodyView::Errors(e@),
            ResponseBody::StatusJson(s) => BodyView::StatusJson(s@),
        }
    }
}

/// A response: status, headers in the order they are set, and body.
pub struct HttpResponse {
    pub status: Status,
    pub headers: Vec<Header>,
    pub body: ResponseBody,
}

/// The view of an `HttpResponse`.
pub struct ResponseView {
    pub status: Status,
    pub headers: Seq<(Seq<char>, Seq<char>)>,
    pub body: BodyView,
}

impl View for HttpResponse {
    type V = ResponseView;

    open spec fn view(&self) -> ResponseView {
        ResponseView {
            status: self.status,
            headers: self.headers@.map_values(|h: Header| h@),
            body: self.body@,
        }
    }
}

/// A response with these headers and an empty body.
pub open spec fn bare(status: Status, headers: Seq<(Seq<char>, Seq<char>)>) -> ResponseView {
    ResponseView { status, headers, body: BodyView::Bytes(Seq::empty()) }
}

/// A response with these headers and body bytes.
pub open spec fn with_bytes(
    status: Status,
    headers: Seq<(Seq<char>, Seq<char>)>,
    body: Seq<u8>,
) -> ResponseView {
    ResponseView { status, headers, body: BodyView::Bytes(body) }
}

/// A header with this name and value.
pub fn header(name: &str, value: String) -> (h: Header)
    ensures
        h@ == (name@, value@),
{
    Header { name: String::from_str(name), value }
}

/// A response with these headers and body bytes.
pub fn respond(status: Status, headers: Vec<Header>, body: Vec<u8>) -> (r: HttpResponse)
    ensures
        r@ == with_bytes(status, headers@.map_values(|h: Header| h@), body@),
{
    HttpResponse { status, headers, body: ResponseBody::Bytes(body) }
}

/// A response without headers and with an empty body.
pub fn respond_empty(status: Status) -> (r: HttpResponse)
    ensures
        r@ == bare(status, Seq::empty()),
{
    let r = respond(status, Vec::new(), Vec::new());
    assert(r@.headers =~= Seq::<(Seq<char>, Seq<char>)>::empty());
    r
}

/// A response with one header and an empty body.
pub fn respond_with_header(status: Status, h: Header) -> (r: HttpResponse)
    ensures
        r@ == bare(status, seq![h@]),
{
    let r = respond(status, vec![h], Vec::new());
    assert(r@.headers =~= seq![h@]);
    r
}

/// An error answer with one error.
pub fn one_error(code: &str, message: &str, detail: &str) -> (e: RequestErrors)
    ensures
        e@ == seq![ErrorView { code: code@, message: message@, detail: detail@ }],
{
    let e = RequestErrors {
        errors: vec![
            RequestError {
                code: String::from_str(code),
                message: String::from_str(message),
                detail: String::from_str(detail),
            },
        ],
    };
    assert(e@ =~= seq![ErrorView { code: code@, message: message@, detail: detail@ }]);
    e
}

} // verus!
