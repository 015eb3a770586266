//! The records that the API exchanges.

pub mod api;
