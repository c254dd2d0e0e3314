//! Typed collections whose contents live in a remote key-value store.
//!
//! The crate holds the rules of the client: how keys are namespaced, which
//! command each operation issues, how each reply is read, and how change
//! notifications are decoded and delivered. It also states what the store
//! does with each command, and holds a store in memory that does the same.
pub mod codec;
pub mod collections;
pub mod command;
pub mod database;
pub mod decimal;
pub mod error;
pub mod memory;
pub mod store;

pub use database::Database;
pub use error::Error;
