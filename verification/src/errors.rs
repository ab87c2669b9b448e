use vstd::prelude::*;

verus! {

/// The body of an error answer: the status code and what went wrong.
pub struct ErrorResponse {
    pub code: u16,
    pub description: String,
}

/// An error answer: its HTTP status and its body.
pub struct HttpError(pub u16, pub ErrorResponse);

/// `404 Not Found`.
pub const NOT_FOUND: u16 = 404;

/// `500 Internal Server Error`.
pub const INTERNAL_SERVER_ERROR: u16 = 500;

/// `502 Bad Gateway`.
pub const BAD_GATEWAY: u16 = 502;

/// A number that `http::StatusCode` accepts: three digits, from 100 to 999.
pub open spec fn status_code(code: u16) -> bool {
    100 <= code <= 999
}

/// Whether `code` is a status number an error answer can carry.
pub fn status_code_is_valid(code: u16) -> (r: bool)
    ensures
        r == status_code(code),
{
    100 <= code && code <= 999
}

/// What `http::StatusCode::canonical_reason` returns for the status `code`.
pub uninterp spec fn reason_phrase(code: u16) -> Option<Seq<char>>;

/// `http::StatusCode::canonical_reason` of the status `code`, built with
/// `StatusCode::from_u16`, which accepts exactly 100..=999.
#[verifier::external_body]
fn canonical_reason(code: u16) -> (r: Option<&'static str>)
    requires
        status_code(code),
    ensures
        match r {
            Some(s) => reason_phrase(code) == Some(s@),
            None => reason_phrase(code) is None,
        },
{
    axum::http::StatusCode::from_u16(code).unwrap().canonical_reason()
}

impl HttpError {
    /// An error answer with `status` and the given description.
    pub fn new(status: u16, description: String) -> (r: HttpError)
        requires
            status_code(status),
        ensures
            r.0 == status,
            r.1.code == status,
            r.1.description == description,
    {
        HttpError(status, ErrorResponse { code: status, description })
    }

    /// An error answer with `status`, described by the status's standard reason phrase
    /// ("Unknown error" for a status that has none).
    pub fn from_code(status: u16) -> (r: HttpError)
        requires
            status_code(status),
        ensures
            r.0 == status,
            r.1.code == status,
            r.1.description@ == (match reason_phrase(status) {
                Some(p) => p,
                None => "Unknown error"@,
            }),
    {
        let description = match canonical_reason(status) {
            Some(p) => String::from_str(p),
            None => String::from_str("Unknown error"),
        };
        HttpError(status, ErrorResponse { code: status, description })
    }
}

/// The answer when a thumbnail cannot be served: 404 when it does not exist, 500 when it
/// exists but cannot be read.
pub fn thumbnail_error(not_found: bool) -> (r: HttpError)
    ensures
        not_found ==> r.0 == NOT_FOUND && r.1.code == NOT_FOUND && r.1.description@
            == "Thumbnail not found"@,
        !not_found ==> r.0 == INTERNAL_SERVER_ERROR && r.1.code == INTERNAL_SERVER_ERROR
            && r.1.description@ == "Error accessing thumbnail"@,
{
    if not_found {
        HttpError::new(NOT_FOUND, String::from_str("Thumbnail not found"))
    } else {
        HttpError::new(INTERNAL_SERVER_ERROR, String::from_str("Error accessing thumbnail"))
    }
}

} // verus!
