//! The Ruby data types that Marshal values are built from.
pub mod rb_string;
pub mod sym;
pub mod symbol;
