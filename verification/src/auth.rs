//! Password hashing and bearer tokens.

pub mod claims;
pub mod errors;
pub mod jwt;
pub mod password;
