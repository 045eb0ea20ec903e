//! Ruby strings, which are byte strings of no fixed encoding.
use vstd::prelude::*;
use vstd::utf8::{decode_utf8, valid_utf8};

verus! {

/// std's `FromUtf8Error`, returned by [`RbString::to_string`]; nothing inside
/// it is read.
#[verifier::external_type_specification]
#[verifier::external_body]
pub struct ExFromUtf8Error(std::string::FromUtf8Error);

/// What `String::from_utf8_lossy` makes of a byte string: the decoded text,
/// with each invalid sequence replaced by U+FFFD.
pub uninterp spec fn utf8_lossy_text(bytes: Seq<u8>) -> Seq<char>;

/// `String::from_utf8_lossy`, copied into an owned `String`.
///
/// The contract names the text the call produces, `utf8_lossy_text` of the
/// bytes, and states the one short fact its documentation gives: valid UTF-8
/// is decoded unchanged. What replaces invalid sequences is left unsaid.
#[verifier::external_body]
pub(crate) fn lossy_text(bytes: &[u8]) -> (s: String)
    ensures
        s@ == utf8_lossy_text(bytes@),
        valid_utf8(bytes@) ==> s@ == decode_utf8(bytes@),
{
    String::from_utf8_lossy(bytes).into_owned()
}

/// The bytes that `FromUtf8Error::into_bytes` gives back from an error.
pub uninterp spec fn utf8_error_bytes(e: std::string::FromUtf8Error) -> Seq<u8>;

/// `FromUtf8Error::into_bytes`: the bytes whose conversion failed.
#[verifier::external_body]
fn error_bytes(e: std::string::FromUtf8Error) -> (b: Vec<u8>)
    ensures
        b@ == utf8_error_bytes(e),
{
    e.into_bytes()
}

/// `String::from_utf8`: the bytes as a `String` when they are valid UTF-8,
/// else std's error, which gives the bytes back (as its documentation says
/// of `FromUtf8Error::into_bytes`).
#[verifier::external_body]
fn string_from_utf8(bytes: Vec<u8>) -> (r: Result<String, std::string::FromUtf8Error>)
    ensures
        r is Ok <==> valid_utf8(bytes@),
        r matches Ok(s) ==> s@ == decode_utf8(bytes@),
        r matches Err(e) ==> utf8_error_bytes(e) == bytes@,
{
    String::from_utf8(bytes)
}

/// A type equivalent to ruby's `String`.
/// ruby strings do not have to be utf8 encoded, so this type holds bytes.
#[derive(Clone, Debug, Default, Hash)]
pub struct RbString {
    /// The data of this string.
    pub data: Vec<u8>,
}

impl View for RbString {
    type V = Seq<u8>;

    open spec fn view(&self) -> Seq<u8> {
        self.data@
    }
}

impl RbString {
    /// The text of this string, with every invalid UTF-8 sequence replaced
    /// by U+FFFD.
    pub fn to_string_lossy(&self) -> (s: String)
        ensures
            s@ == utf8_lossy_text(self@),
            valid_utf8(self@) ==> s@ == decode_utf8(self@),
    {
        lossy_text(self.data.as_slice())
    }

    /// This string as a rust string.
    ///
    /// # Errors
    /// Errors when this string is not valid utf8.
    pub fn to_string(self) -> (r: Result<String, std::string::FromUtf8Error>)
        ensures
            r is Ok <==> valid_utf8(self@),
            r matches Ok(s) ==> s@ == decode_utf8(self@),
            r matches Err(e) ==> utf8_error_bytes(e) == self@,
    {
        string_from_utf8(self.data)
    }

    /// The string that failed to convert to a Rust string, taken back from
    /// the error.
    pub fn from_utf8_error(error: std::string::FromUtf8Error) -> (s: RbString)
        ensures
            s@ == utf8_error_bytes(error),
    {
        RbString { data: error_bytes(error) }
    }

    /// The length of the string data in bytes.
    pub fn len(&self) -> (n: usize)
        ensures
            n == self@.len(),
    {
        self.data.len()
    }

    /// Returns true if the string data is empty.
    pub fn is_empty(&self) -> (b: bool)
        ensures
            b == (self@.len() == 0),
    {
        self.data.len() == 0
    }

    /// The string data as a slice.
    pub fn as_slice(&self) -> (s: &[u8])
        ensures
            s@ == self@,
    {
        self.data.as_slice()
    }
}

} // verus!
