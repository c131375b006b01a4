//! Responses and the status codes that the server core produces.
use vstd::prelude::*;

verus! {

#[derive(Clone, Copy, Debug, PartialEq, Eq, Hash, Structural)]
pub enum StatusCode {
    OK,
    NoContent,
    BadRequest,
    NotFound,
    MethodNotAllowed,
    LengthRequired,
    UriTooLong,
    HttpVersionNotSupported,
}

/// The code and reason phrase of a status line.
pub open spec fn status_text(c: StatusCode) -> Seq<char> {
    match c {
        StatusCode::OK => "200 OK"@,
        StatusCode::NoContent => "204 No Content"@,
        StatusCode::BadRequest => "400 Bad Request"@,
        StatusCode::NotFound => "404 Not Found"@,
        StatusCode::MethodNotAllowed => "405 Method Not Allowed"@,
        StatusCode::LengthRequired => "411 Length Required"@,
        StatusCode::UriTooLong => "414 URI Too Long"@,
        StatusCode::HttpVersionNotSupported => "505 HTTP Version Not Supported"@,
    }
}

impl StatusCode {
    pub fn to_string(&self) -> (r: String)
        ensures
            r@ == status_text(*self),
    {
        match self {
            StatusCode::OK => "200 OK".to_owned(),
            StatusCode::NoContent => "204 No Content".to_owned(),
            StatusCode::BadRequest => "400 Bad Request".to_owned(),
            StatusCode::NotFound => "404 Not Found".to_owned(),
            StatusCode::MethodNotAllowed => "405 Method Not Allowed".to_owned(),
            StatusCode::LengthRequired => "411 Length Required".to_owned(),
            StatusCode::UriTooLong => "414 URI Too Long".to_owned(),
            StatusCode::HttpVersionNotSupported => "505 HTTP Version Not Supported".to_owned(),
        }
    }
}

/// A response: status line text, content type and body bytes.
#[derive(Clone, Debug)]
pub struct Response {
    pub status: String,
    pub content_type: String,
    pub content: Vec<u8>,
}

/// A response with the given status, no content type and an empty body.
pub open spec fn is_bare(r: Response, c: StatusCode) -> bool {
    r.status@ == status_text(c) && r.content_type@.len() == 0 && r.content@.len() == 0
}

impl Response {
    /// An empty `200 OK` response.
    pub fn new() -> (r: Response)
        ensures
            is_bare(r, StatusCode::OK),
    {
        Response::bare(StatusCode::OK)
    }

    /// An empty response with the given status and no content type.
    pub fn bare(c: StatusCode) -> (r: Response)
        ensures
            is_bare(r, c),
    {
        Response { status: c.to_string(), content_type: String::new(), content: Vec::new() }
    }
}

} // verus!
