//! The error answer of the HTTP API: a status, a stable code, a fixed message
//! and optional per-field details. The request id is attached when the answer
//! is sent.
use vstd::prelude::*;

use crate::numbers::{format_signed, signed_decimal};

verus! {

broadcast use vstd::string::group_string_axioms;

pub const STATUS_BAD_REQUEST: u16 = 400;
pub const STATUS_UNAUTHORIZED: u16 = 401;
pub const STATUS_FORBIDDEN: u16 = 403;
pub const STATUS_NOT_FOUND: u16 = 404;
pub const STATUS_METHOD_NOT_ALLOWED: u16 = 405;
pub const STATUS_CONFLICT: u16 = 409;
pub const STATUS_UNPROCESSABLE_ENTITY: u16 = 422;
pub const STATUS_INTERNAL_SERVER_ERROR: u16 = 500;
pub const STATUS_SERVICE_UNAVAILABLE: u16 = 503;

/// An API error answer. `details` maps field names to reasons.
#[derive(Debug)]
pub struct ApiError {
    pub status: u16,
    pub code: &'static str,
    pub message: &'static str,
    pub details: Option<Vec<(String, String)>>,
}

/// The view of a list of details.
pub open spec fn details_view(details: Seq<(String, String)>) -> Seq<(Seq<char>, Seq<char>)> {
    details.map_values(|d: (String, String)| (d.0@, d.1@))
}

/// What an error answers: status, code, message and details.
pub type Answer = (u16, Seq<char>, Seq<char>, Option<Seq<(Seq<char>, Seq<char>)>>);

pub open spec fn answer_of(e: ApiError) -> Answer {
    (
        e.status,
        e.code@,
        e.message@,
        match e.details {
            Some(d) => Some(details_view(d@)),
            None => None,
        },
    )
}

/// An answer without details.
pub open spec fn plain_answer(status: u16, code: Seq<char>, message: Seq<char>) -> Answer {
    (status, code, message, None)
}

/// An answer with the single detail `key: value`.
pub open spec fn detail_answer(
    status: u16,
    code: Seq<char>,
    message: Seq<char>,
    key: Seq<char>,
    value: Seq<char>,
) -> Answer {
    (status, code, message, Some(seq![(key, value)]))
}

/// The answer to a refused request field.
pub open spec fn invalid_input_answer(field: Seq<char>, reason: Seq<char>) -> Answer {
    detail_answer(422, "invalid_input"@, "Request fields are invalid"@, field, reason)
}

/// `e` answers with `status`, `code` and `message`, and without details.
pub open spec fn is_problem(e: ApiError, status: u16, code: Seq<char>, message: Seq<char>) -> bool {
    e.status == status && e.code@ == code && e.message@ == message && e.details is None
}

/// `e` answers with `status`, `code` and `message`, and the single detail
/// `key: value`.
pub open spec fn is_detailed(
    e: ApiError,
    status: u16,
    code: Seq<char>,
    message: Seq<char>,
    key: Seq<char>,
    value: Seq<char>,
) -> bool {
    &&& e.status == status
    &&& e.code@ == code
    &&& e.message@ == message
    &&& e.details is Some
    &&& details_view(e.details->Some_0@) == seq![(key, value)]
}

/// A refused request field: `422 invalid_input` with the field and reason.
pub open spec fn is_invalid_input(e: ApiError, field: Seq<char>, reason: Seq<char>) -> bool {
    is_detailed(e, 422, "invalid_input"@, "Request fields are invalid"@, field, reason)
}

impl ApiError {
    pub fn new(
        status: u16,
        code: &'static str,
        message: &'static str,
        details: Option<Vec<(String, String)>>,
    ) -> (e: Self)
        ensures
            e.status == status,
            e.code == code,
            e.message == message,
            e.details == details,
    {
        ApiError { status, code, message, details }
    }

    /// An error without details.
    pub fn plain(status: u16, code: &'static str, message: &'static str) -> (e: Self)
        ensures
            is_problem(e, status, code@, message@),
    {
        ApiError { status, code, message, details: None }
    }

    /// An error with a single detail.
    pub fn detailed(
        status: u16,
        code: &'static str,
        message: &'static str,
        key: &str,
        value: &str,
    ) -> (e: Self)
        ensures
            is_detailed(e, status, code@, message@, key@, value@),
    {
        let mut details: Vec<(String, String)> = Vec::new();
        details.push((key.to_owned(), value.to_owned()));
        assert(details_view(details@) =~= seq![(key@, value@)]);
        ApiError { status, code, message, details: Some(details) }
    }
}

/// A refused request field.
pub fn invalid_input(field: &str, reason: &str) -> (e: ApiError)
    ensures
        is_invalid_input(e, field@, reason@),
{
    ApiError::detailed(422, "invalid_input", "Request fields are invalid", field, reason)
}

/// An error naming a record by its numeric id under `key`.
pub fn id_detail(
    status: u16,
    code: &'static str,
    message: &'static str,
    key: &str,
    id: i64,
) -> (e: ApiError)
    ensures
        is_detailed(e, status, code@, message@, key@, signed_decimal(id as int)),
{
    let text = format_signed(id);
    ApiError::detailed(status, code, message, key, text.as_str())
}

/// The answer for an unknown endpoint.
pub fn not_found() -> (e: ApiError)
    ensures
        is_problem(e, 404, "not_found"@, "API endpoint not found"@),
{
    ApiError::plain(404, "not_found", "API endpoint not found")
}

/// The answer for a method an endpoint does not serve.
pub fn method_not_allowed() -> (e: ApiError)
    ensures
        is_problem(e, 405, "method_not_allowed"@, "HTTP method not allowed"@),
{
    ApiError::plain(405, "method_not_allowed", "HTTP method not allowed")
}

} // verus!
