//! EdgeReplica: per-page SQLite sync between a CLI client and an edge worker,
//! authenticated with macaroons.
//!
//! - [`shared`]: domain types, tokens, the storage trait and its in-memory
//!   implementation, the sync wire protocol.
//! - [`worker`]: the admin and sync services and what routes to them.
//! - [`client`]: what the command line sends, takes in and prints.
//! - [`macaroon`]: macaroons, which tokens are made of.
//! - [`bench`]: page digests to compare.
//! - [`text`]: text primitives that the rest builds on.

pub mod bench;
pub mod client;
pub mod macaroon;
pub mod shared;
pub mod text;
pub mod text_laws;
pub mod worker;
