//! Reading and writing Ruby's Marshal data format (version 4.8).
//!
//! The library decodes Marshal bytes into a [`Value`] tree and encodes such a
//! tree back into bytes. Every step of both directions is stated against a
//! mathematical model of the format, and the round trip from a value to bytes
//! and back is proved.

pub mod de;
pub mod fmt;
pub mod packed;
pub mod path_to_error;
pub mod rb_types;
pub mod round_trip;
pub mod ser;
pub mod tag;
pub mod value;

pub use crate::de::deserializer::{from_bytes, Deserializer};
pub use crate::ser::serializer::{to_bytes, Serializer};
pub use crate::value::Value;
