//! Writing Marshal data.
use vstd::prelude::*;

pub mod compound;
pub mod encoding;
pub mod error;
pub mod serializer;
pub mod traits;

verus! {

/// Bytes to be written as a Ruby string.
///
/// A `&[u8]` is otherwise written as an array of integers; this wrapper
/// writes it as a string.
#[derive(Debug, Clone, Copy, PartialEq, Eq, PartialOrd, Ord, Hash)]
pub struct ByteString<'a>(pub &'a [u8]);

} // verus!
