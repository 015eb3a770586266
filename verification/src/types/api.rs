//! The API's requests and responses.

pub mod response;
