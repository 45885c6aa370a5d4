//! A typed document-collection layer over an embedded, transactional,
//! ordered key-value storage engine.
//!
//! Callers define typed documents, store them in named collections, and
//! query by primary key or by declared secondary index fields.  Durability,
//! atomicity and ordering are delegated to the engine; this crate supplies
//! the transaction-handle lifecycle, the derivation of physical table names
//! and the deterministic, reversible encoding of index values.

pub mod codec;
pub mod database;
pub mod document;
pub mod error;

pub use error::Error;
pub use error::Result;
