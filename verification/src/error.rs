//! What can go wrong while serving, and how a refused request is answered.

use axum::http::StatusCode;
use vstd::prelude::*;

verus! {

/// The I/O error of std, which the serving errors carry as their source.
#[verifier::external_type_specification]
#[verifier::external_body]
pub struct ExIoError(std::io::Error);

/// Errors raised by the Serving Layer.
#[derive(Debug)]
pub enum ServingError {
    /// The configured origin URL is missing a required URI component.
    InvalidOriginUrl,
    /// Only HTTP origins are supported.
    UnsupportedOriginScheme,
    /// The configured request timeout must be greater than zero.
    InvalidTimeout,
    /// The configured body-size limit must be greater than zero.
    InvalidBodyLimit,
    /// A listener could not bind before startup completed.
    BindFailed(std::io::Error),
    /// The public proxy server failed.
    ProxyServerFailed(std::io::Error),
    /// The admin server failed.
    AdminServerFailed(std::io::Error),
}

impl ServingError {
    /// The text of `message`.
    pub open spec fn message_text(self) -> Seq<char> {
        match self {
            ServingError::InvalidOriginUrl => "origin_url must be an absolute URL with scheme and authority"@,
            ServingError::UnsupportedOriginScheme => "origin_url must use http for T1.1"@,
            ServingError::InvalidTimeout => "request_timeout_ms must be greater than zero"@,
            ServingError::InvalidBodyLimit => "max_body_bytes must be greater than zero"@,
            ServingError::BindFailed(_) => "listener bind failed"@,
            ServingError::ProxyServerFailed(_) => "proxy server failed"@,
            ServingError::AdminServerFailed(_) => "admin server failed"@,
        }
    }

    /// The error in words.
    pub fn message(&self) -> (text: &'static str)
        ensures
            text@ == self.message_text(),
    {
        match self {
            ServingError::InvalidOriginUrl => "origin_url must be an absolute URL with scheme and authority",
            ServingError::UnsupportedOriginScheme => "origin_url must use http for T1.1",
            ServingError::InvalidTimeout => "request_timeout_ms must be greater than zero",
            ServingError::InvalidBodyLimit => "max_body_bytes must be greater than zero",
            ServingError::BindFailed(_) => "listener bind failed",
            ServingError::ProxyServerFailed(_) => "proxy server failed",
            ServingError::AdminServerFailed(_) => "admin server failed",
        }
    }
}

/// Why a proxied request is refused.
#[derive(Clone, Copy, Debug, PartialEq, Eq, Structural)]
pub enum ProxyHttpError {
    /// The `content-length` field does not hold a length.
    InvalidContentLength,
    /// The declared body is larger than the configured limit.
    RequestBodyTooLarge,
    /// The request cannot be addressed to the origin.
    InvalidUpstreamUri,
    /// The origin did not answer in time.
    UpstreamTimeout,
    /// The request to the origin failed.
    Upstream,
}

/// The body of a refusal.
#[derive(Debug)]
pub struct ProblemDetails {
    /// HTTP status of the refusal.
    pub status: u16,
    /// Reason phrase of that status.
    pub title: String,
    /// Registry code of the error.
    pub code: &'static str,
}

/// A refusal as it is sent.
#[derive(Debug)]
pub struct ProblemResponse {
    /// HTTP status of the answer.
    pub status: u16,
    /// Header fields to set, by name and value.
    pub headers: Vec<(&'static str, &'static str)>,
    /// What the body says.
    pub problem: ProblemDetails,
}

/// `StatusCode::canonical_reason` of the status with the number `status`, for
/// the two statuses that refusals have: 413 is `Payload Too Large`, 502 is
/// `Bad Gateway`.
#[verifier::external_body]
fn canonical_reason(status: u16) -> (reason: Option<&'static str>)
    requires
        status == 413 || status == 502,
    ensures
        status == 413 ==> reason is Some && reason->0@ == "Payload Too Large"@,
        status == 502 ==> reason is Some && reason->0@ == "Bad Gateway"@,
{
    StatusCode::from_u16(status).ok().and_then(|number| number.canonical_reason())
}

/// The title of a refusal: the reason phrase of its status, or a stand-in
/// where the status has none.
pub fn problem_title(reason: Option<&'static str>) -> (title: String)
    ensures
        title@ == (match reason {
            Some(phrase) => phrase@,
            None => "Gateway error"@,
        }),
{
    match reason {
        Some(phrase) => phrase.to_owned(),
        None => "Gateway error".to_owned(),
    }
}

impl ProxyHttpError {
    /// The HTTP status that answers the error.
    pub open spec fn status_number(self) -> u16 {
        match self {
            ProxyHttpError::InvalidContentLength | ProxyHttpError::RequestBodyTooLarge => 413,
            ProxyHttpError::InvalidUpstreamUri | ProxyHttpError::UpstreamTimeout | ProxyHttpError::Upstream => 502,
        }
    }

    /// The reason phrase of that status.
    pub open spec fn status_phrase(self) -> Seq<char> {
        match self {
            ProxyHttpError::InvalidContentLength | ProxyHttpError::RequestBodyTooLarge => "Payload Too Large"@,
            ProxyHttpError::InvalidUpstreamUri | ProxyHttpError::UpstreamTimeout | ProxyHttpError::Upstream =>
                "Bad Gateway"@,
        }
    }

    /// The registry code of the error.
    pub open spec fn code_text(self) -> Seq<char> {
        match self {
            ProxyHttpError::InvalidContentLength => "AJAR_GATEWAY_INVALID_CONTENT_LENGTH"@,
            ProxyHttpError::RequestBodyTooLarge => "AJAR_GATEWAY_REQUEST_BODY_TOO_LARGE"@,
            ProxyHttpError::InvalidUpstreamUri => "AJAR_GATEWAY_INVALID_UPSTREAM_URI"@,
            ProxyHttpError::UpstreamTimeout => "AJAR_GATEWAY_UPSTREAM_TIMEOUT"@,
            ProxyHttpError::Upstream => "AJAR_GATEWAY_UPSTREAM_ERROR"@,
        }
    }

    /// The text of `message`.
    pub open spec fn message_text(self) -> Seq<char> {
        match self {
            ProxyHttpError::InvalidContentLength => "content-length invalid"@,
            ProxyHttpError::RequestBodyTooLarge => "request body too large"@,
            ProxyHttpError::InvalidUpstreamUri => "upstream uri invalid"@,
            ProxyHttpError::UpstreamTimeout => "upstream timed out"@,
            ProxyHttpError::Upstream => "upstream request failed"@,
        }
    }

    /// The HTTP status that answers the error.
    pub fn status(&self) -> (status: u16)
        ensures
            status == self.status_number(),
    {
        match self {
            ProxyHttpError::InvalidContentLength | ProxyHttpError::RequestBodyTooLarge => 413,
            ProxyHttpError::InvalidUpstreamUri | ProxyHttpError::UpstreamTimeout | ProxyHttpError::Upstream => 502,
        }
    }

    /// The registry code of the error.
    pub fn code(&self) -> (code: &'static str)
        ensures
            code@ == self.code_text(),
    {
        match self {
            ProxyHttpError::InvalidContentLength => "AJAR_GATEWAY_INVALID_CONTENT_LENGTH",
            ProxyHttpError::RequestBodyTooLarge => "AJAR_GATEWAY_REQUEST_BODY_TOO_LARGE",
            ProxyHttpError::InvalidUpstreamUri => "AJAR_GATEWAY_INVALID_UPSTREAM_URI",
            ProxyHttpError::UpstreamTimeout => "AJAR_GATEWAY_UPSTREAM_TIMEOUT",
            ProxyHttpError::Upstream => "AJAR_GATEWAY_UPSTREAM_ERROR",
        }
    }

    /// The error in words.
    pub fn message(&self) -> (text: &'static str)
        ensures
            text@ == self.message_text(),
    {
        match self {
            ProxyHttpError::InvalidContentLength => "content-length invalid",
            ProxyHttpError::RequestBodyTooLarge => "request body too large",
            ProxyHttpError::InvalidUpstreamUri => "upstream uri invalid",
            ProxyHttpError::UpstreamTimeout => "upstream timed out",
            ProxyHttpError::Upstream => "upstream request failed",
        }
    }

    /// How the error is answered: with its status, its registry code in a
    /// header field of its own and in the body, and a body of problem details.
    pub fn into_response(self) -> (response: ProblemResponse)
        ensures
            response.status == self.status_number(),
            response.headers@.len() == 2,
            response.headers@[0].0@ == "ajar-error-code"@,
            response.headers@[0].1@ == self.code_text(),
            response.headers@[1].0@ == "content-type"@,
            response.headers@[1].1@ == "application/problem+json"@,
            response.problem.status == self.status_number(),
            response.problem.title@ == self.status_phrase(),
            response.problem.code@ == self.code_text(),
    {
        let status = self.status();
        let code = self.code();
        let title = problem_title(canonical_reason(status));
        ProblemResponse {
            status,
            headers: vec![("ajar-error-code", code), ("content-type", "application/problem+json")],
            problem: ProblemDetails { status, title, code },
        }
    }
}

/// A registry code names one error.
pub proof fn codes_are_distinct(a: ProxyHttpError, b: ProxyHttpError)
    requires
        a.code_text() == b.code_text(),
    ensures
        a == b,
{
    reveal_strlit("AJAR_GATEWAY_INVALID_CONTENT_LENGTH");
    reveal_strlit("AJAR_GATEWAY_REQUEST_BODY_TOO_LARGE");
    reveal_strlit("AJAR_GATEWAY_INVALID_UPSTREAM_URI");
    reveal_strlit("AJAR_GATEWAY_UPSTREAM_TIMEOUT");
    reveal_strlit("AJAR_GATEWAY_UPSTREAM_ERROR");
    assert("AJAR_GATEWAY_INVALID_CONTENT_LENGTH"@[13] == 'I');
    assert("AJAR_GATEWAY_REQUEST_BODY_TOO_LARGE"@[13] == 'R');
    assert("AJAR_GATEWAY_INVALID_UPSTREAM_URI"@.len() == 33);
    assert("AJAR_GATEWAY_UPSTREAM_TIMEOUT"@.len() == 29);
    assert("AJAR_GATEWAY_UPSTREAM_ERROR"@.len() == 27);
}

/// Every refusal is answered with a code of the gateway's registry, and with a
/// status that lays the fault on the request or on the way to the origin.
pub proof fn every_refusal_has_a_registry_code(error: ProxyHttpError)
    ensures
        "AJAR_GATEWAY_"@.is_prefix_of(error.code_text()),
        error.status_number() == 413 || error.status_number() == 502,
{
    reveal_strlit("AJAR_GATEWAY_");
    reveal_strlit("AJAR_GATEWAY_INVALID_CONTENT_LENGTH");
    reveal_strlit("AJAR_GATEWAY_REQUEST_BODY_TOO_LARGE");
    reveal_strlit("AJAR_GATEWAY_INVALID_UPSTREAM_URI");
    reveal_strlit("AJAR_GATEWAY_UPSTREAM_TIMEOUT");
    reveal_strlit("AJAR_GATEWAY_UPSTREAM_ERROR");
    assert(error.code_text().take(13) =~= "AJAR_GATEWAY_"@);
}

/// A refusal says whose fault it is: 413 where the declared length is, 502 where
/// the way to the origin is, and the phrase is that of the status.
pub proof fn status_tells_the_fault(error: ProxyHttpError)
    ensures
        error.status_number() == 413 <==> error == ProxyHttpError::InvalidContentLength || error
            == ProxyHttpError::RequestBodyTooLarge,
        error.status_number() == 502 <==> error == ProxyHttpError::InvalidUpstreamUri || error
            == ProxyHttpError::UpstreamTimeout || error == ProxyHttpError::Upstream,
        error.status_number() == 413 ==> error.status_phrase() == "Payload Too Large"@,
        error.status_number() == 502 ==> error.status_phrase() == "Bad Gateway"@,
{
}

/// The I/O error behind a serving error is not told: two errors of one kind say
/// the same.
pub proof fn io_errors_are_not_told(error: std::io::Error, other: std::io::Error)
    ensures
        ServingError::BindFailed(error).message_text() == ServingError::BindFailed(other).message_text(),
        ServingError::ProxyServerFailed(error).message_text() == ServingError::ProxyServerFailed(other).message_text(),
        ServingError::AdminServerFailed(error).message_text() == ServingError::AdminServerFailed(other).message_text(),
{
}

} // verus!
