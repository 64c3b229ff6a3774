//! The Policy Engine: a pure decision over an injected request context and
//! policy document.

use vstd::prelude::*;

verus! {

/// Errors raised by policy evaluation.
#[derive(Clone, Copy, Debug, PartialEq, Eq, Structural)]
pub enum PolicyEngineError {
    /// The policy document could not be evaluated and access must be denied.
    InvalidPolicy,
}

impl PolicyEngineError {
    /// The text of `message`.
    pub open spec fn message_text(self) -> Seq<char> {
        match self {
            PolicyEngineError::InvalidPolicy => "policy document invalid"@,
        }
    }

    /// The error in words.
    pub fn message(&self) -> (text: &'static str)
        ensures
            text@ == self.message_text(),
    {
        match self {
            PolicyEngineError::InvalidPolicy => "policy document invalid",
        }
    }
}

/// The verdict of a policy on a request.
#[derive(Clone, Copy, Debug, PartialEq, Eq, Structural)]
pub enum PolicyVerdict {
    /// The request is allowed by the injected policy inputs.
    Allow,
    /// The request is denied by the injected policy inputs.
    Deny,
}

} // verus!
