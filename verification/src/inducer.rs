//! The Inducer: build-time assistance in drafting extraction rules.
//!
//! It cannot be reached from request-serving code and publishes nothing. What
//! it emits is data that is validated before it enters the Store.

use vstd::prelude::*;

verus! {

/// Errors raised by build-time induction.
#[derive(Clone, Copy, Debug, PartialEq, Eq, Structural)]
pub enum InducerError {
    /// A configured induction provider is unavailable.
    ProviderUnavailable,
    /// Generated data failed schema or conformance validation.
    InvalidArtifact,
}

impl InducerError {
    /// The text of `message`.
    pub open spec fn message_text(self) -> Seq<char> {
        match self {
            InducerError::ProviderUnavailable => "induction provider unavailable"@,
            InducerError::InvalidArtifact => "induced artifact invalid"@,
        }
    }

    /// The error in words.
    pub fn message(&self) -> (text: &'static str)
        ensures
            text@ == self.message_text(),
    {
        match self {
            InducerError::ProviderUnavailable => "induction provider unavailable",
            InducerError::InvalidArtifact => "induced artifact invalid",
        }
    }
}

} // verus!
