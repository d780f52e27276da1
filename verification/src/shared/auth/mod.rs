//! Root key, verified contexts, and session/sync macaroons.

pub mod grant_laws;
pub mod keyring;
pub mod session;
pub mod token_laws;
pub mod tokens;
