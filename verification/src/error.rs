//! Errors reported by the library.

use vstd::prelude::*;

verus! {

/// A failure at a construction or serialization boundary.
#[derive(Debug, Clone)]
pub enum DomainError {
    /// A value offered for construction broke a documented rule.
    Validation(String),
    /// A value could not be encoded or decoded.
    Serialization(String),
}

impl DomainError {
    /// A validation failure carrying the given reason.
    pub fn validation(message: &str) -> (e: DomainError)
        ensures
            e matches DomainError::Validation(m) && m@ == message@,
    {
        DomainError::Validation(message.to_owned())
    }

    /// The reason string carried by the error.
    pub fn message(&self) -> (m: &String)
        ensures
            m@ == match *self {
                DomainError::Validation(ref s) => s@,
                DomainError::Serialization(ref s) => s@,
            },
    {
        match self {
            DomainError::Validation(s) => s,
            DomainError::Serialization(s) => s,
        }
    }
}

} // verus!
