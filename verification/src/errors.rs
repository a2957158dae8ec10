//! What can go wrong in the core, by the party that failed.

use vstd::prelude::*;

verus! {

/// The report distribution service could not be reached, or its answer for a
/// window could not be read.
#[derive(Debug, Clone, PartialEq, Eq)]
pub struct NetworkingError {
    pub http_status: u16,
    pub message: String,
}

/// A failure of the local observation store.
#[derive(Debug, Clone, PartialEq, Eq)]
pub enum PersistenceError {
    /// The store was used before it was initialized.
    Uninitialized,
    /// A stored record does not have the shape of an observation.
    MalformedRecord,
    /// A transaction did not go through; the store is as it was before.
    Transaction(String),
}

/// A contact number handed in as text that is no contact number.
#[derive(Debug, Clone, Copy, PartialEq, Eq, Structural)]
pub enum TcnParseError {
    /// The text is not an even number of hexadecimal digits.
    InvalidHex,
    /// The text is hexadecimal, but does not stand for 16 bytes.
    InvalidLength,
}

/// What the services of the core fail with.
#[derive(Debug, Clone, PartialEq, Eq)]
pub enum ServicesError {
    /// A window could not be retrieved from the distribution service.
    Networking(NetworkingError),
    /// The observation log failed.
    Persistence(PersistenceError),
    /// What was handed in as a contact number is none.
    Decode(TcnParseError),
    /// Anything else, in words.
    General(String),
}

} // verus!
