//! Connection core for an embedded SQLite database.
//!
//! The crate holds the logic that sits between a query layer and the native
//! database engine: collecting serialized bind parameters, caching prepared
//! statements by their SQL text, and tracking transaction state. All of it is
//! written sans-IO: every function that depends on the engine takes the
//! engine's answer as a plain value, so the decisions themselves are verified
//! for every answer the engine could give. A driver that owns the native
//! handle performs the calls and feeds the answers back.

pub mod error;
pub mod bind_collector;
pub mod query_fragment;
pub mod statement;
pub mod transaction_manager;
pub mod statement_cache;
pub mod connection;
