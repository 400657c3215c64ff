//! Errors of the networking layer.

use vstd::prelude::*;

use crate::ids::{id_text, id_to_text};

verus! {

/// Errors that can occur in the networking layer.
#[derive(Clone, PartialEq, Eq, Debug)]
pub enum NetworkingError {
    /// Serialization error.
    Serialization(String),
    /// Deserialization error.
    Deserialization(String),
    /// Gossip error.
    Gossip(String),
    /// Blob transfer error.
    Blob(String),
    /// Entity not found in network map.
    EntityNotFound(u128),
    /// Vector clock comparison failed.
    VectorClockError(String),
    /// CRDT merge conflict.
    MergeConflict(String),
    /// Invalid message format.
    InvalidMessage(String),
    /// Authentication/security error.
    SecurityError(String),
    /// Rate limit exceeded.
    RateLimitExceeded,
    /// Other networking errors.
    Other(String),
}


impl NetworkingError {
    /// The error's message.
    pub fn message(&self) -> (s: String)
        ensures
            s@ == (match self {
                NetworkingError::Serialization(m) => "Serialization error: "@ + m@,
                NetworkingError::Deserialization(m) => "Deserialization error: "@ + m@,
                NetworkingError::Gossip(m) => "Gossip error: "@ + m@,
                NetworkingError::Blob(m) => "Blob transfer error: "@ + m@,
                NetworkingError::EntityNotFound(id) => "Entity not found: "@ + id_text(*id),
                NetworkingError::VectorClockError(m) => "Vector clock error: "@ + m@,
                NetworkingError::MergeConflict(m) => "CRDT merge conflict: "@ + m@,
                NetworkingError::InvalidMessage(m) => "Invalid message: "@ + m@,
                NetworkingError::SecurityError(m) => "Security error: "@ + m@,
                NetworkingError::RateLimitExceeded => "Rate limit exceeded"@,
                NetworkingError::Other(m) => m@,
            }),
    {
        let (prefix, rest): (&str, String) = match self {
            NetworkingError::RateLimitExceeded => {
                return String::from_str("Rate limit exceeded");
            },
            NetworkingError::Other(m) => {
                return m.clone();
            },
            NetworkingError::Serialization(m) => ("Serialization error: ", m.clone()),
            NetworkingError::Deserialization(m) => ("Deserialization error: ", m.clone()),
            NetworkingError::Gossip(m) => ("Gossip error: ", m.clone()),
            NetworkingError::Blob(m) => ("Blob transfer error: ", m.clone()),
            NetworkingError::EntityNotFound(id) => ("Entity not found: ", id_to_text(*id)),
            NetworkingError::VectorClockError(m) => ("Vector clock error: ", m.clone()),
            NetworkingError::MergeConflict(m) => ("CRDT merge conflict: ", m.clone()),
            NetworkingError::InvalidMessage(m) => ("Invalid message: ", m.clone()),
            NetworkingError::SecurityError(m) => ("Security error: ", m.clone()),
        };
        let mut s = String::from_str(prefix);
        s.append(rest.as_str());
        s
    }
}

} // verus!
