//! The Store: access to prepared artifacts.
//!
//! Serving code reads prepared stores. The Store does not harvest, crawl,
//! render, sign or make policy decisions.

use vstd::prelude::*;

verus! {

/// Errors raised by storage backends.
#[derive(Clone, Copy, Debug, PartialEq, Eq, Structural)]
pub enum StoreError {
    /// The requested prepared artifact is absent.
    NotFound,
    /// The backend is unavailable and callers must fail closed.
    BackendUnavailable,
    /// The backend rejected malformed persisted data.
    RecordInvalid,
}

impl StoreError {
    /// The text of `message`.
    pub open spec fn message_text(self) -> Seq<char> {
        match self {
            StoreError::NotFound => "record not found"@,
            StoreError::BackendUnavailable => "storage backend unavailable"@,
            StoreError::RecordInvalid => "stored record invalid"@,
        }
    }

    /// The error in words.
    pub fn message(&self) -> (text: &'static str)
        ensures
            text@ == self.message_text(),
    {
        match self {
            StoreError::NotFound => "record not found",
            StoreError::BackendUnavailable => "storage backend unavailable",
            StoreError::RecordInvalid => "stored record invalid",
        }
    }
}

/// Stable identifier for a stored prepared artifact.
#[derive(Clone, Debug, PartialEq, Eq)]
pub struct StoreKey {
    /// Namespace for the stored record family.
    pub namespace: String,
    /// Stable record key inside the namespace.
    pub key: String,
}

impl View for StoreKey {
    type V = (Seq<char>, Seq<char>);

    open spec fn view(&self) -> (Seq<char>, Seq<char>) {
        (self.namespace@, self.key@)
    }
}

/// What a backend holds: the bytes of each artifact by namespace and key.
pub type Records = Map<(Seq<char>, Seq<char>), Seq<u8>>;

/// `outcome` is what reading `key` may give where `records` are stored: the
/// exact bytes stored under it, or that it is absent where it is. A backend may
/// also fail.
pub open spec fn reads_as(records: Records, key: (Seq<char>, Seq<char>), outcome: Result<Vec<u8>, StoreError>) -> bool {
    match outcome {
        Ok(bytes) => records.contains_key(key) && bytes@ == records[key],
        Err(StoreError::NotFound) => !records.contains_key(key),
        Err(_) => true,
    }
}

/// `after` is what may be stored once `value` was written under `key`. Where
/// the write failed, nothing is said.
pub open spec fn writes_as(
    before: Records,
    key: (Seq<char>, Seq<char>),
    value: Seq<u8>,
    outcome: Result<(), StoreError>,
    after: Records,
) -> bool {
    outcome is Ok ==> after == before.insert(key, value)
}

/// Extension interface for storage backends.
///
/// Backends fail closed on unavailable or invalid storage. They return the
/// exact bytes stored for a stable key, and reach out to no network from a read
/// that serves a request.
pub trait StorageBackend: Send + Sync {
    /// What the backend holds. A backend that does not say so holds what
    /// nobody knows.
    open spec fn records(&self) -> Records {
        arbitrary()
    }

    /// Reads a prepared artifact by stable key.
    fn read(&self, key: &StoreKey) -> (outcome: Result<Vec<u8>, StoreError>)
        ensures
            reads_as(self.records(), key@, outcome),
    ;

    /// Writes a prepared artifact by stable key.
    ///
    /// The backend is taken by unique reference, so that what it holds after
    /// the write can be stated: behind a shared reference a value does not change
    /// for the verifier. A backend with several writers is shared in a lock.
    fn write(&mut self, key: &StoreKey, value: &[u8]) -> (outcome: Result<(), StoreError>)
        ensures
            writes_as(old(self).records(), key@, value@, outcome, final(self).records()),
    ;
}

/// A read gives back what was written: after a write that succeeded, a read of
/// the same key does not find it absent, and if it succeeds it gives exactly
/// the bytes written.
pub proof fn write_is_read_back(
    before: Records,
    after: Records,
    key: (Seq<char>, Seq<char>),
    value: Seq<u8>,
    read: Result<Vec<u8>, StoreError>,
)
    requires
        writes_as(before, key, value, Ok(()), after),
        reads_as(after, key, read),
    ensures
        read != Err::<Vec<u8>, StoreError>(StoreError::NotFound),
        read matches Ok(bytes) ==> bytes@ == value,
{
}

/// A write leaves the other keys alone: what a read of another key may give
/// after a write that succeeded is what it might have given before.
pub proof fn write_leaves_other_keys(
    before: Records,
    after: Records,
    key: (Seq<char>, Seq<char>),
    value: Seq<u8>,
    other: (Seq<char>, Seq<char>),
    read: Result<Vec<u8>, StoreError>,
)
    requires
        writes_as(before, key, value, Ok(()), after),
        other != key,
    ensures
        reads_as(after, other, read) == reads_as(before, other, read),
{
}

} // verus!
