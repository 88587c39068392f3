//! Incremental synchronization of e-books from a content server onto a
//! local filesystem, reported to a host document manager over a
//! line-oriented JSON protocol.
//!
//! The crate is the verified core of that process: the paginated
//! remote-listing iterator (`listing`), the per-book skip/fetch decision
//! and the run-level model of a whole pass (`sync`), the deterministic
//! content addressing of downloaded files (`keys`), the request encoding
//! and response typing of the host protocol (`protocol`), and the
//! wall-clock timestamp format the protocol carries (`datetime`).
//! Network and standard-stream transport live outside the crate and hand
//! plain values in.

pub mod datetime;
pub mod error;
pub mod keys;
pub mod listing;
pub mod logger;
pub mod protocol;
pub mod sync;
pub mod text;
