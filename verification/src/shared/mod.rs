//! Host-portable core: domain types, tokens, storage, wire protocol.

pub mod auth;
pub mod clock;
pub mod domain;
pub mod error;
pub mod repo;
pub mod repo_laws;
pub mod repo_mem;
pub mod row_laws;
pub mod sync_protocol;
pub mod table;
