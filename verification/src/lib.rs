//! A compact, growable bit store kept eight bits to a byte, with a zlib
//! encoding of its buffer, and the plain records of the API's responses.

pub mod bitfield8;
pub mod bits;
pub mod types;
pub mod zlib;
