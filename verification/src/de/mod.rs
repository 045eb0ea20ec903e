//! Reading Marshal data.
pub mod access;
pub(crate) mod cursor;
pub mod decoding;
pub mod deserializer;
pub mod error;
pub mod ignored;
pub mod laws;
