//! Service logic, free of any transport.

pub mod account_laws;
pub mod admin;
pub mod admin_laws;
pub mod admin_model;
pub mod common;
pub mod message_laws;
pub mod oauth;
pub mod oauth_laws;
pub mod pull_laws;
pub mod push_laws;
pub mod rpc;
pub mod sql_laws;
pub mod stream_laws;
pub mod stream_runs;
pub mod sync;
pub mod sync_fsm;
pub mod sync_laws;
pub mod sync_storage;
