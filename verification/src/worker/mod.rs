//! The edge worker: admin service, sync state machines, routing.

pub mod auth;
pub mod config;
pub mod do_edge_replica;
pub mod do_migrations;
pub mod do_sync_ws;
pub mod edge_laws;
pub mod middleware;
pub mod repo_d1;
pub mod routes;
pub mod services;
pub mod state;
pub mod sync_forward;
