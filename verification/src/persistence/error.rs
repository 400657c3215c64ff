//! Errors of the persistence layer.

use vstd::prelude::*;

use crate::text::{decimal, decimal_text};

verus! {

/// An error of the SQLite layer, as `rusqlite` reports it.
#[verifier::external_type_specification]
#[verifier::external_body]
pub struct ExSqliteError(rusqlite::Error);

/// An I/O error, as std reports it.
#[verifier::external_type_specification]
#[verifier::external_body]
pub struct ExIoError(std::io::Error);

/// Errors of the persistence layer.
#[derive(Debug)]
pub enum PersistenceError {
    /// Database error.
    Database(rusqlite::Error),
    /// Serialization error.
    Serialization(String),
    /// Deserialization error.
    Deserialization(String),
    /// Configuration error.
    Config(String),
    /// I/O error.
    Io(std::io::Error),
    /// Type not registered in the type registry.
    TypeNotRegistered(String),
    /// Entity or resource not found.
    NotFound(String),
    /// Circuit breaker is open: too many consecutive failures.
    CircuitBreakerOpen { consecutive_failures: u32, retry_after_secs: u64 },
    /// A component's serialized size exceeds the limit.
    ComponentTooLarge { component_type: String, size_bytes: usize, max_bytes: usize },
    /// Other error.
    Other(String),
}


/// The text of an SQLite error.
///
/// Calls `to_string` on the `rusqlite::Error`, which writes its `Display`
/// form. The error is opaque here, so nothing is claimed of the text.
#[verifier::external_body]
fn sqlite_error_text(e: &rusqlite::Error) -> (s: String) {
    e.to_string()
}

/// The text of an I/O error.
///
/// Calls `to_string` on the `std::io::Error`, which writes its `Display`
/// form. The error is opaque here, so nothing is claimed of the text.
#[verifier::external_body]
fn io_error_text(e: &std::io::Error) -> (s: String) {
    e.to_string()
}

impl PersistenceError {
    /// The message of an error whose text this library writes itself: every
    /// variant but the wrapped database and I/O errors.
    pub open spec fn own_text(&self) -> Option<Seq<char>> {
        match self {
            PersistenceError::Database(_) => None,
            PersistenceError::Io(_) => None,
            PersistenceError::Serialization(m) => Some("Serialization error: "@ + m@),
            PersistenceError::Deserialization(m) => Some("Deserialization error: "@ + m@),
            PersistenceError::Config(m) => Some("Configuration error: "@ + m@),
            PersistenceError::TypeNotRegistered(t) => Some("Type not registered in type registry: "@ + t@),
            PersistenceError::NotFound(m) => Some("Not found: "@ + m@),
            PersistenceError::CircuitBreakerOpen { consecutive_failures, retry_after_secs } => Some(
                "Circuit breaker open after "@ + decimal(*consecutive_failures as nat)
                    + " consecutive failures, retry after "@ + decimal(*retry_after_secs as nat)
                    + " seconds"@,
            ),
            PersistenceError::ComponentTooLarge { component_type, size_bytes, max_bytes } => Some(
                "Component '"@ + component_type@ + "' size ("@ + decimal(*size_bytes as nat)
                    + " bytes) exceeds maximum ("@ + decimal(*max_bytes as nat)
                    + " bytes). This may indicate unbounded data growth or serialization issues."@,
            ),
            PersistenceError::Other(m) => Some(m@),
        }
    }

    /// The error's message.
    pub fn message(&self) -> (s: String)
        ensures
            self.own_text() matches Some(t) ==> s@ == t,
            self is Database ==> exists|t: Seq<char>| s@ == "Database error: "@ + t,
            self is Io ==> exists|t: Seq<char>| s@ == "I/O error: "@ + t,
    {
        match self {
            PersistenceError::Database(e) => {
                let mut s = String::from_str("Database error: ");
                let t = sqlite_error_text(e);
                s.append(t.as_str());
                s
            },
            PersistenceError::Io(e) => {
                let mut s = String::from_str("I/O error: ");
                let t = io_error_text(e);
                s.append(t.as_str());
                s
            },
            PersistenceError::Serialization(m) => {
                let mut s = String::from_str("Serialization error: ");
                s.append(m.as_str());
                s
            },
            PersistenceError::Deserialization(m) => {
                let mut s = String::from_str("Deserialization error: ");
                s.append(m.as_str());
                s
            },
            PersistenceError::Config(m) => {
                let mut s = String::from_str("Configuration error: ");
                s.append(m.as_str());
                s
            },
            PersistenceError::TypeNotRegistered(t) => {
                let mut s = String::from_str("Type not registered in type registry: ");
                s.append(t.as_str());
                s
            },
            PersistenceError::NotFound(m) => {
                let mut s = String::from_str("Not found: ");
                s.append(m.as_str());
                s
            },
            PersistenceError::CircuitBreakerOpen { consecutive_failures, retry_after_secs } => {
                let mut s = String::from_str("Circuit breaker open after ");
                let a = decimal_text(*consecutive_failures as u64);
                s.append(a.as_str());
                s.append(" consecutive failures, retry after ");
                let b = decimal_text(*retry_after_secs);
                s.append(b.as_str());
                s.append(" seconds");
                s
            },
            PersistenceError::ComponentTooLarge { component_type, size_bytes, max_bytes } => {
                let mut s = String::from_str("Component '");
                s.append(component_type.as_str());
                s.append("' size (");
                let a = decimal_text(*size_bytes as u64);
                s.append(a.as_str());
                s.append(" bytes) exceeds maximum (");
                let b = decimal_text(*max_bytes as u64);
                s.append(b.as_str());
                s.append(
                    " bytes). This may indicate unbounded data growth or serialization issues.",
                );
                s
            },
            PersistenceError::Other(m) => m.clone(),
        }
    }
}

} // verus!
