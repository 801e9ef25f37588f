//! In-memory cache of a small lending library's inventory.
//!
//! The cache sits between frequent local reads and writes and a remote,
//! paginated, rate-sensitive table store. This crate holds the rules of that
//! cache: when cached data is too old to serve, how concurrent refreshes are
//! folded into one, how fetched records become books, and how a checkout or a
//! return is validated and applied. Network traffic is left to the caller,
//! which performs the remote work each step asks for and reports back.

pub mod book;
pub mod cache;
pub mod clock;
pub mod error;
pub mod freshness;
pub mod json;
pub mod laws;
pub mod lending;
pub mod listing;
pub mod model;
pub mod records;
pub mod view;

