//! The Harvester: recovery of structure from the sources a site is made of.
//!
//! It belongs to the conversion pipeline and never runs while a request is
//! served. What it collects is consumed later, through the Store.

use vstd::prelude::*;

verus! {

/// Errors raised by harvest collectors.
#[derive(Clone, Copy, Debug, PartialEq, Eq, Structural)]
pub enum HarvesterError {
    /// The collector could not read its configured source.
    SourceUnavailable,
    /// The collector rejected malformed source data.
    SourceInvalid,
}

impl HarvesterError {
    /// The text of `message`.
    pub open spec fn message_text(self) -> Seq<char> {
        match self {
            HarvesterError::SourceUnavailable => "collector source unavailable"@,
            HarvesterError::SourceInvalid => "collector source invalid"@,
        }
    }

    /// The error in words.
    pub fn message(&self) -> (text: &'static str)
        ensures
            text@ == self.message_text(),
    {
        match self {
            HarvesterError::SourceUnavailable => "collector source unavailable",
            HarvesterError::SourceInvalid => "collector source invalid",
        }
    }
}

/// Prepared record emitted by a harvest collector.
#[derive(Clone, Debug, PartialEq, Eq)]
pub struct HarvestRecord {
    /// Stable source identifier for the harvested item.
    pub source_id: String,
    /// Raw structured payload owned by the collector format.
    pub payload: Vec<u8>,
}

/// Extension interface for harvest collectors.
///
/// Collectors fail closed on unreadable or malformed source data. They emit the
/// same records for the same source snapshot, and publish nothing themselves.
/// The snapshot is no argument of `collect`, so its contract leaves the records
/// open.
pub trait HarvestCollector: Send + Sync {
    /// Collects prepared records from the configured source.
    fn collect(&self) -> (records: Result<Vec<HarvestRecord>, HarvesterError>);
}

} // verus!
