//! A verified storage adapter for role/permission rules.
//!
//! The adapter translates between variable-arity rule tuples held in a
//! policy model and fixed-width rows of a relational table, and builds the
//! exact-match and wildcard predicates used to remove rules.

pub mod adapter;
pub mod config;
pub mod error;
pub mod laws;
pub mod log;
pub mod model;
pub mod res;
pub mod statement;
pub mod rule;
pub mod store;
pub mod text;
