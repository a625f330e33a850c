//! The decisions of `fetch(url, options)`: which request its arguments make
//! (or which error they raise), and what a response reports of its status.
//! Sending the request and reading the body are the host's I/O.
use vstd::prelude::*;
use crate::headers::is_tchar;


verus! {

/// `Method::from_str` accepts exactly the non-empty strings of token characters.
pub open spec fn is_valid_method(m: Seq<u8>) -> bool {
    m.len() > 0 && forall|i: int| 0 <= i < m.len() ==> is_tchar(#[trigger] m[i])
}

/// `reqwest::Method::from_str(m).is_ok()`.
#[verifier::external_body]
fn method_accepts(m: &str) -> (r: bool)
    ensures
        r == is_valid_method(vstd::utf8::encode_utf8(m@)),
{
    <reqwest::Method as std::str::FromStr>::from_str(m).is_ok()
}

/// The English reason phrase of a status code, as `StatusCode::canonical_reason` gives it.
pub uninterp spec fn canonical_reason(code: int) -> Option<Seq<char>>;

/// `StatusCode::canonical_reason` of a status code (100..=999).
#[verifier::external_body]
fn status_reason(code: u16) -> (r: Option<String>)
    requires
        100 <= code <= 999,
    ensures
        match r {
            Some(t) => canonical_reason(code as int) == Some(t@),
            None => canonical_reason(code as int) is None,
        },
{
    reqwest::StatusCode::from_u16(code).unwrap().canonical_reason().map(|s| s.to_string())
}

/// `StatusCode::is_success`: the code is in 200..=299.
#[verifier::external_body]
fn status_is_success(code: u16) -> (r: bool)
    requires
        100 <= code <= 999,
    ensures
        r == (200 <= code < 300),
{
    reqwest::StatusCode::from_u16(code).unwrap().is_success()
}

/// What `fetch` reads of its second argument.
#[derive(Debug)]
pub struct FetchOptions {
    /// `options.method`, where it is a string.
    pub method: Option<String>,
    /// The string properties of `options.headers`.
    pub headers: Vec<(String, String)>,
    /// `options.body`, where it is a string.
    pub body_text: Option<String>,
    /// `options.body`, where it is an `ArrayBuffer`: its bytes, or `None` where they cannot be read.
    pub body_buffer: Option<Option<Vec<u8>>>,
}

/// The body of a request.
#[derive(Debug)]
pub enum RequestBody {
    Text(String),
    Bytes(Vec<u8>),
}

/// A request to send.
#[derive(Debug)]
pub struct FetchRequest {
    pub url: String,
    pub method: String,
    pub headers: Vec<(String, String)>,
    pub body: Option<RequestBody>,
}

/// Why `fetch` failed before a response.
#[derive(Clone, Copy, Debug, PartialEq, Eq)]
pub enum FetchError {
    InvalidUrl,
    InvalidMethod,
    InvalidBody,
}

impl FetchError {
    /// The message a JavaScript exception carries for this error.
    pub fn message(&self) -> (r: &'static str)
        ensures
            *self == FetchError::InvalidUrl ==> r@ == "Invalid URL"@,
            *self == FetchError::InvalidMethod ==> r@ == "Invalid Method"@,
            *self == FetchError::InvalidBody ==> r@ == "Invalid Body"@,
    {
        match self {
            FetchError::InvalidUrl => "Invalid URL",
            FetchError::InvalidMethod => "Invalid Method",
            FetchError::InvalidBody => "Invalid Body",
        }
    }
}

/// The method that the options ask for (GET by default).
pub open spec fn requested_method(options: FetchOptions) -> Seq<char> {
    match options.method {
        Some(m) => m@,
        None => "GET"@,
    }
}

/// The request is what the arguments describe: the URL, the method, the headers as given, and
/// the body (an `ArrayBuffer` taking precedence over a string).
pub open spec fn describes(req: FetchRequest, url: String, options: FetchOptions) -> bool {
    &&& req.url@ == url@
    &&& req.method@ == requested_method(options)
    &&& req.headers@ == options.headers@
    &&& match options.body_buffer {
        Some(Some(b)) => req.body matches Some(RequestBody::Bytes(x)) && x@ == b@,
        _ => match options.body_text {
            Some(t) => req.body matches Some(RequestBody::Text(x)) && x@ == t@,
            None => req.body is None,
        },
    }
}

/// `fetch(url, options)` up to sending: the URL must be a string, the method one that HTTP
/// accepts, and a buffer body readable.
pub fn plan_fetch(url: Option<String>, options: FetchOptions) -> (r: Result<FetchRequest, FetchError>)
    ensures
        url is None ==> r == Err::<FetchRequest, FetchError>(FetchError::InvalidUrl),
        url matches Some(u) ==> if !is_valid_method(vstd::utf8::encode_utf8(requested_method(options))) {
            r == Err::<FetchRequest, FetchError>(FetchError::InvalidMethod)
        } else if options.body_buffer == Some(None::<Vec<u8>>) {
            r == Err::<FetchRequest, FetchError>(FetchError::InvalidBody)
        } else {
            r matches Ok(req) && describes(req, u, options)
        },
{
    let url = match url {
        Some(u) => u,
        None => return Err(FetchError::InvalidUrl),
    };
    let ghost opts = options;
    let FetchOptions { method, headers, body_text, body_buffer } = options;
    let method = match method {
        Some(m) => m,
        None => String::from_str("GET"),
    };
    if !method_accepts(method.as_str()) {
        return Err(FetchError::InvalidMethod);
    }
    let body = match body_buffer {
        Some(Some(bytes)) => Some(RequestBody::Bytes(bytes)),
        Some(None) => return Err(FetchError::InvalidBody),
        None => match body_text {
            Some(t) => Some(RequestBody::Text(t)),
            None => None,
        },
    };
    let req = FetchRequest { url, method, headers, body };
    assert(describes(req, url, opts));
    Ok(req)
}

/// What a `Response` reports of itself.
#[derive(Debug)]
pub struct ResponseStatus {
    pub ok: bool,
    pub status: u16,
    pub status_text: Option<String>,
    pub url: String,
}

/// The status of a response with status code `status` (100..=999) from `url`: `ok` for 2xx, and
/// the code's reason phrase.
pub fn response_status(status: u16, url: String) -> (r: ResponseStatus)
    requires
        100 <= status <= 999,
    ensures
        r.ok == (200 <= status < 300),
        r.status == status,
        r.url@ == url@,
        match r.status_text {
            Some(t) => canonical_reason(status as int) == Some(t@),
            None => canonical_reason(status as int) is None,
        },
{
    ResponseStatus {
        ok: status_is_success(status),
        status,
        status_text: status_reason(status),
        url,
    }
}

} // verus!
