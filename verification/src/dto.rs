//! Transport-facing projections of the persisted records.

pub mod block;
pub mod note;
pub mod user;
pub mod workspace;
