//! Typed access layer over a Redis store that holds a network-topology
//! document graph: DNS names, nodes, metadata, plugin data and reports.
//!
//! The library decides what is asked of the store and what the answers mean;
//! it never talks to the store itself.
//!
//! - Writes ([`put`]) are built as [`redis::Cmd`] values: one call of a
//!   server-side function each, with its keys counted and its arguments in
//!   the order the function takes them. [`command`] says what the arguments
//!   of a built command are, and [`codec`] proves that plugin data can be
//!   read back from them.
//! - Reads ([`get`]) are small state machines ([`store::Reading`]) that hand
//!   out one query at a time and take the reply back. What each read returns
//!   is stated against a model of the store.
//!
//! Whoever holds the connection sends the commands and puts the queries;
//! [`store::run`] does the latter for a caller that can answer a query on
//! the spot.

pub mod codec;
pub mod command;
pub mod error;
pub mod get;
pub mod keys;
pub mod merge;
pub mod model;
pub mod put;
pub mod store;
pub mod text;
