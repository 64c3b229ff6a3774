//! The Extractor: deterministic recovery of structure from pages.
//!
//! It belongs to the conversion pipeline and never runs while a request is
//! served. Extraction rules are data that is validated before it enters the
//! Store.

use vstd::prelude::*;

verus! {

/// Errors raised by deterministic extraction.
#[derive(Clone, Copy, Debug, PartialEq, Eq, Structural)]
pub enum ExtractorError {
    /// The input document was malformed or unsupported.
    InvalidInput,
    /// A deterministic extraction rule failed validation.
    InvalidRule,
}

impl ExtractorError {
    /// The text of `message`.
    pub open spec fn message_text(self) -> Seq<char> {
        match self {
            ExtractorError::InvalidInput => "extractor input invalid"@,
            ExtractorError::InvalidRule => "extraction rule invalid"@,
        }
    }

    /// The error in words.
    pub fn message(&self) -> (text: &'static str)
        ensures
            text@ == self.message_text(),
    {
        match self {
            ExtractorError::InvalidInput => "extractor input invalid",
            ExtractorError::InvalidRule => "extraction rule invalid",
        }
    }
}

} // verus!
