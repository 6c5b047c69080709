//! The authentication gate of the API: which credential a request is checked
//! with, the order of the checks, and the answers for refused requests.
use vstd::prelude::*;

use crate::api_error::{ApiError, Answer, answer_of, details_view, plain_answer};
use crate::auth::{registration_problems, state_changing_method};
use crate::auth_policy::{AuthState, bearer_spec, bearer_token, cookie_in_headers, cookie_value, texts_view};

verus! {

broadcast use vstd::string::group_string_axioms;

pub fn unauthorized() -> (e: ApiError)
    ensures
        answer_of(e) == plain_answer(401, "authentication_required"@, "Valid authentication is required"@),
{
    ApiError::plain(401, "authentication_required", "Valid authentication is required")
}

pub fn forbidden(code: &'static str, message: &'static str) -> (e: ApiError)
    ensures
        answer_of(e) == plain_answer(403, code@, message@),
{
    ApiError::plain(403, code, message)
}

pub fn authentication_unavailable() -> (e: ApiError)
    ensures
        answer_of(e) == plain_answer(
            500,
            "authentication_unavailable"@,
            "Authentication service is unavailable"@,
        ),
{
    ApiError::plain(500, "authentication_unavailable", "Authentication service is unavailable")
}

/// The answer when the CSRF token is missing or wrong.
pub fn csrf_failed() -> (e: ApiError)
    ensures
        answer_of(e) == plain_answer(403, "csrf_validation_failed"@, "CSRF token is missing or invalid"@),
{
    forbidden("csrf_validation_failed", "CSRF token is missing or invalid")
}

/// The answer when a browser origin is not allowed.
pub fn origin_denied() -> (e: ApiError)
    ensures
        answer_of(e) == plain_answer(403, "cors_origin_denied"@, "Request origin is not allowed"@),
{
    forbidden("cors_origin_denied", "Request origin is not allowed")
}

/// The credential a request is authenticated with: a bearer token wins over
/// the session cookie.
#[derive(Debug, PartialEq, Eq)]
pub enum Credential {
    ApiToken(String),
    Session(String),
    Missing,
}

pub open spec fn credential_spec(authorization: Option<Seq<char>>, cookies: Seq<Seq<char>>) -> Option<(bool, Seq<char>)> {
    let bearer = match authorization {
        Some(a) => bearer_spec(a),
        None => None,
    };
    match bearer {
        Some(t) => Some((true, t)),
        None => match cookie_in_headers(cookies, "fixer_session"@) {
            Some(s) => Some((false, s)),
            None => None,
        },
    }
}

/// Picks the credential of a request from its `Authorization` header text and
/// its `Cookie` header values.
pub fn request_credential(authorization: Option<&str>, cookies: &Vec<String>) -> (credential: Credential)
    ensures
        match credential_spec(
            match authorization {
                Some(a) => Some(a@),
                None => None,
            },
            texts_view(cookies@),
        ) {
            Some((true, t)) => credential is ApiToken && credential->ApiToken_0@ == t,
            Some((false, s)) => credential is Session && credential->Session_0@ == s,
            None => credential is Missing,
        },
{
    match bearer_token(authorization) {
        Some(token) => Credential::ApiToken(token),
        None => match cookie_value(cookies, "fixer_session") {
            Some(session) => Credential::Session(session),
            None => Credential::Missing,
        },
    }
}

/// The outcome of checking an API token: `Some(true)` when it is valid,
/// `Some(false)` when it is not, `None` when the store failed.
pub fn after_api_token(found: Option<bool>) -> (result: Result<(), ApiError>)
    ensures
        found == Some(true) ==> result is Ok,
        found == Some(false) ==> result is Err && answer_of(result->Err_0) == plain_answer(
            401,
            "authentication_required"@,
            "Valid authentication is required"@,
        ),
        found is None ==> result is Err && answer_of(result->Err_0) == plain_answer(
            500,
            "authentication_unavailable"@,
            "Authentication service is unavailable"@,
        ),
{
    match found {
        Some(true) => Ok(()),
        Some(false) => Err(unauthorized()),
        None => Err(authentication_unavailable()),
    }
}

/// The next step after the session token was checked: refuse, allow, or
/// check the CSRF token that a state-changing request must carry.
pub fn after_session(valid: Option<bool>, method: &str, csrf: Option<&str>) -> (result: Result<
    Option<String>,
    ApiError,
>)
    ensures
        valid is None ==> result is Err && answer_of(result->Err_0) == plain_answer(
            500,
            "authentication_unavailable"@,
            "Authentication service is unavailable"@,
        ),
        valid == Some(false) ==> result is Err && answer_of(result->Err_0) == plain_answer(
            401,
            "authentication_required"@,
            "Valid authentication is required"@,
        ),
        valid == Some(true) && !state_changing_method(method@) ==> result is Ok && result->Ok_0 is None,
        valid == Some(true) && state_changing_method(method@) ==> match csrf {
            Some(c) => result is Ok && result->Ok_0 is Some && result->Ok_0->Some_0@ == c@,
            None => result is Err && answer_of(result->Err_0) == plain_answer(
                403,
                "csrf_validation_failed"@,
                "CSRF token is missing or invalid"@,
            ),
        },
{
    match valid {
        None => Err(authentication_unavailable()),
        Some(false) => Err(unauthorized()),
        Some(true) => {
            if !crate::auth::is_state_changing(method) {
                return Ok(None);
            }
            match csrf {
                Some(c) => Ok(Some(c.to_owned())),
                None => Err(csrf_failed()),
            }
        },
    }
}

/// The last step: the session must accept the CSRF token.
pub fn after_csrf(valid: Option<bool>) -> (result: Result<(), ApiError>)
    ensures
        valid == Some(true) ==> result is Ok,
        valid == Some(false) ==> result is Err && answer_of(result->Err_0) == plain_answer(
            403,
            "csrf_validation_failed"@,
            "CSRF token is missing or invalid"@,
        ),
        valid is None ==> result is Err && answer_of(result->Err_0) == plain_answer(
            500,
            "authentication_unavailable"@,
            "Authentication service is unavailable"@,
        ),
{
    match valid {
        Some(true) => Ok(()),
        Some(false) => Err(csrf_failed()),
        None => Err(authentication_unavailable()),
    }
}

/// How a request passes the cross-origin gate.
#[derive(Debug, PartialEq, Eq)]
pub enum CorsDecision {
    /// No `Origin` header: the request is served as it is.
    PassThrough,
    /// The origin is not allowed, or its header is not text.
    Deny,
    /// An allowed preflight: answered here with the allowed methods and headers.
    Preflight(String),
    /// An allowed request: served, and answered with the origin.
    Allow(String),
}

/// The cross-origin decision for a request, given its `Origin` header
/// (`Some(None)` when the header is not text) and whether it is a preflight.
pub fn cors_decision(state: &AuthState, origin: Option<Option<&str>>, preflight: bool) -> (decision: CorsDecision)
    ensures
        origin is None ==> decision == CorsDecision::PassThrough,
        origin == Some(None::<&str>) ==> decision == CorsDecision::Deny,
        match origin {
            Some(Some(o)) => if state.origins_view().contains(o@) {
                if preflight {
                    decision is Preflight && decision->Preflight_0@ == o@
                } else {
                    decision is Allow && decision->Allow_0@ == o@
                }
            } else {
                decision == CorsDecision::Deny
            },
            _ => true,
        },
{
    match origin {
        None => CorsDecision::PassThrough,
        Some(None) => CorsDecision::Deny,
        Some(Some(o)) => if !state.origin_allowed(o) {
            CorsDecision::Deny
        } else if preflight {
            CorsDecision::Preflight(o.to_owned())
        } else {
            CorsDecision::Allow(o.to_owned())
        },
    }
}

/// The methods a preflight answer allows.
pub const CORS_ALLOW_METHODS: &'static str = "GET, HEAD, POST, OPTIONS";

/// The request headers a preflight answer allows.
pub const CORS_ALLOW_HEADERS: &'static str = "authorization, content-type, idempotency-key, last-event-id, x-csrf-token";

pub fn invalid_registration(details: Option<Vec<(String, String)>>) -> (e: ApiError)
    ensures
        e.status == 422,
        e.code@ == "invalid_registration"@,
        e.message@ == "Registration fields are invalid"@,
        e.details == details,
{
    ApiError::new(422, "invalid_registration", "Registration fields are invalid", details)
}

pub fn registration_closed() -> (e: ApiError)
    ensures
        answer_of(e) == plain_answer(409, "registration_closed"@, "Administrator registration is closed"@),
{
    ApiError::plain(409, "registration_closed", "Administrator registration is closed")
}

pub fn invalid_login() -> (e: ApiError)
    ensures
        answer_of(e) == plain_answer(401, "invalid_credentials"@, "Credentials are invalid"@),
{
    ApiError::plain(401, "invalid_credentials", "Credentials are invalid")
}

pub fn unavailable() -> (e: ApiError)
    ensures
        answer_of(e) == plain_answer(
            500,
            "authentication_unavailable"@,
            "Authentication service is unavailable"@,
        ),
{
    ApiError::plain(500, "authentication_unavailable", "Authentication service is unavailable")
}

/// Registration fields, answered with the per-field problems when refused.
pub fn check_registration(username: &str, password: &str) -> (result: Result<(), ApiError>)
    ensures
        result is Ok <==> registration_problems(username@, password@).len() == 0,
        result is Err ==> result->Err_0.status == 422 && result->Err_0.details is Some
            && details_view(result->Err_0.details->Some_0@) == registration_problems(username@, password@),
{
    match crate::auth::validate_registration(username, password) {
        Ok(()) => Ok(()),
        Err(details) => {
            proof {
                assert(details_view(details@) =~= details@.map_values(|d: (String, String)| (d.0@, d.1@)));
            }
            Err(invalid_registration(Some(details)))
        },
    }
}

} // verus!
