//! Domain models: content items, users and pagination.
pub mod arc;
pub mod page;
pub mod user;
