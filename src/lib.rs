//! Data-access core of a local measurement backend: user accounts and
//! timestamped samples, kept in one store whose every operation is verified.

pub mod instant;
pub mod store;
