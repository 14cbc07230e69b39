//! Tag voting over a transactional key-value store: typed records that share
//! one flat key space, an authorization guard over user status, and signed
//! bearer tokens with sliding renewal.
//!
//! A transaction runs its operation once. A race that the store reports on a
//! read or write is handed back as a conflict, a failure of the store as a
//! storage failure; neither makes the operation run again.

pub mod codec;
pub mod error;
pub mod handlers;
pub mod keys;
pub mod lists;
pub mod models;
pub mod store;
pub mod token;
