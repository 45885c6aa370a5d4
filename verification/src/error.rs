//! The unified error taxonomy: storage-engine failures, I/O failures,
//! lock poisoning, unknown tables and shared-ownership violations.

use vstd::prelude::*;
use vstd::string::StringExecFns;

verus! {

/// The storage engine's own failure classification: one variant per error
/// family of the engine's API, each carrying the engine's error detail.
#[derive(Clone, Debug)]
pub enum EngineError {
    /// Opening or creating the backing store failed.
    Database(String),
    /// A read or write inside a transaction failed.
    Storage(String),
    /// Opening or deleting a table failed.
    Table(String),
    /// Beginning or closing a transaction failed.
    Transaction(String),
    /// Committing a write transaction failed.
    Commit(String),
}

/// One failure of the document layer or of the engine under it.  Engine
/// errors keep their original classification.
#[derive(Debug)]
pub enum Error {
    /// A storage-engine failure, wrapping the engine's own error detail.
    Redb(EngineError),
    /// A filesystem or memory I/O failure.
    Io(String),
    /// A prior panic while holding an internal lock left shared state
    /// inconsistent.
    Poison(String),
    /// An operation referenced a table name absent from the catalog.
    UnknownTableName(String),
    /// Finalization was attempted while more than one live reference to the
    /// transaction handle existed; carries the observed strong and weak
    /// reference counts.
    ArcReferences(usize, usize),
}

pub type Result<T> = core::result::Result<T, Error>;

/// Relies on `Arc::strong_count` from std: the number of strong handles
/// observed at some moment; other threads may change it at any time.
#[verifier::external_body]
pub(crate) fn arc_strong_count<T>(arc: &std::sync::Arc<T>) -> usize {
    std::sync::Arc::strong_count(arc)
}

/// Relies on `Arc::weak_count` from std: the number of weak handles
/// observed at some moment; other threads may change it at any time.
#[verifier::external_body]
pub(crate) fn arc_weak_count<T>(arc: &std::sync::Arc<T>) -> usize {
    std::sync::Arc::weak_count(arc)
}

impl Error {
    /// The error for an operation that named an absent table.
    pub fn unknown_table(name: &str) -> (r: Error)
        ensures
            r matches Error::UnknownTableName(s) && s@ == name@,
    {
        Error::UnknownTableName(name.to_owned())
    }

    /// The shared-ownership violation observed on the given handle,
    /// reporting its strong and weak reference counts for diagnostics.
    pub fn arc_refs<T>(arc: std::sync::Arc<T>) -> (r: Error)
        ensures
            r is ArcReferences,
    {
        let s = arc_strong_count(&arc);
        let w = arc_weak_count(&arc);
        Error::ArcReferences(s, w)
    }

    /// A short description of the failure.
    pub fn message(&self) -> (r: String)
        ensures
            self is Redb ==> r@ == "unhandled storage engine error"@,
            self matches Error::Io(m) ==> r@ == "filesystem or memory input/output error: "@
                + m@,
            self matches Error::Poison(m) ==> r@ == "lock poisoning error: "@ + m@,
            self matches Error::UnknownTableName(n) ==> r@ == "unknown table name: "@ + n@,
            self is ArcReferences ==> r@
                == "more than one live reference to this transaction handle"@,
    {
        match self {
            Error::Redb(_) => "unhandled storage engine error".to_owned(),
            Error::Io(m) => {
                let mut s = "filesystem or memory input/output error: ".to_owned();
                s.append(m.as_str());
                s
            },
            Error::Poison(m) => {
                let mut s = "lock poisoning error: ".to_owned();
                s.append(m.as_str());
                s
            },
            Error::UnknownTableName(n) => {
                let mut s = "unknown table name: ".to_owned();
                s.append(n.as_str());
                s
            },
            Error::ArcReferences(_, _) => {
                "more than one live reference to this transaction handle".to_owned()
            },
        }
    }
}

} // verus!
