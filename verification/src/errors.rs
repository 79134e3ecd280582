//! Error kinds of the service, one enum per subsystem.
//!
//! Failures of outside transports (the SQL driver, the broker client,
//! the HTTP stack) are carried as plain message strings; the process
//! edge converts driver errors into these before they reach the core.

use vstd::prelude::*;

verus! {

/// Store failures.
#[derive(Debug)]
pub enum DbError {
    /// Database transport or query failure.
    Backend(String),
    /// A DML statement affected zero rows unexpectedly.
    NotInserted,
    /// The requested sensor is absent.
    NotFound,
    /// Schema migration failure (startup-only, fatal).
    Migrate(String),
}

/// Broker-listener failures.
#[derive(Debug)]
pub enum ListenerError {
    /// Broker transport failure.
    Transport(String),
}

/// HTTP-server failures.
#[derive(Debug)]
pub enum ServerError {
    /// HTTP or socket transport failure.
    Transport(String),
}

impl DbError {
    /// Short description, in place of a `Display` implementation.
    pub fn message(&self) -> (r: String)
        ensures
            r@.len() > 0,
    {
        let m = match self {
            DbError::Backend(_) => "database backend error",
            DbError::NotInserted => "could not insert",
            DbError::NotFound => "not found",
            DbError::Migrate(_) => "could not migrate",
        };
        proof {
            reveal_strlit("database backend error");
            reveal_strlit("could not insert");
            reveal_strlit("not found");
            reveal_strlit("could not migrate");
        }
        m.to_owned()
    }
}

} // verus!
