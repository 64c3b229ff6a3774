//! What the admin server answers.

use crate::metrics::Metrics;
use vstd::prelude::*;

verus! {

/// The body of a health answer.
#[derive(Debug)]
pub struct Health {
    /// How the process is.
    pub status: &'static str,
}

/// A text answer.
#[derive(Debug)]
pub struct TextResponse {
    /// Value of the `content-type` field.
    pub content_type: &'static str,
    /// The body.
    pub body: String,
}

/// Answers the liveness check.
pub fn healthz() -> (health: Health)
    ensures
        health.status@ == "ok"@,
{
    Health { status: "ok" }
}

/// Answers with the counters as text.
pub fn metrics_endpoint(metrics: &Metrics) -> (response: TextResponse)
    ensures
        response.content_type@ == "text/plain; charset=utf-8"@,
        response.body@ == crate::metrics::metrics_text(metrics.requests(), metrics.upstream_errors()),
{
    TextResponse { content_type: "text/plain; charset=utf-8", body: metrics.render() }
}

} // verus!
