//! The worker's tokens, with every claim in the signed identifier, and
//! password hashing.

pub mod claim_laws;
pub mod claims;
pub mod password;
pub mod token_laws;
pub mod tokens;
