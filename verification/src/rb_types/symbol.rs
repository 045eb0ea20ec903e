//! Owned Ruby symbols.
use vstd::prelude::*;
use vstd::string::{StrSliceExecFns, StringExecFns};
use vstd::utf8::encode_utf8;

use crate::rb_types::sym::{is_ivar_name, Sym};

verus! {

/// An owned symbol from ruby.
/// It's a newtype around a String, meant to preserve types during (de)serialization:
/// a [`Symbol`] is written as a symbol, where a string is written as a string.
#[derive(Clone, Debug, Hash)]
pub struct Symbol(pub String);

impl View for Symbol {
    type V = Seq<char>;

    closed spec fn view(&self) -> Seq<char> {
        self.0@
    }
}

impl Symbol {
    /// Create a new symbol from a string.
    pub fn new(string: String) -> (s: Symbol)
        ensures
            s@ == string@,
            s.0 == string,
    {
        Symbol(string)
    }

    /// This symbol's text as a borrowed str.
    pub fn as_str(&self) -> (s: &str)
        ensures
            s@ == self@,
    {
        self.0.as_str()
    }

    /// This symbol as a borrowed [`Sym`].
    pub fn as_sym(&self) -> (s: Sym<'_>)
        ensures
            s@ == self@,
    {
        Sym::new(self.0.as_str())
    }

    /// The length of this symbol's text in bytes (its UTF-8 encoding).
    pub fn len(&self) -> (n: usize)
        ensures
            n == encode_utf8(self@).len() as usize,
    {
        self.0.as_str().len()
    }

    /// Returns true if the symbol has no text.
    pub fn is_empty(&self) -> (b: bool)
        ensures
            b == (self@.len() == 0),
    {
        self.0.as_str().is_empty()
    }

    /// Returns true if the text starts with an `@` (an instance variable name).
    pub fn is_ivar(&self) -> (b: bool)
        ensures
            b == is_ivar_name(self@),
    {
        self.as_sym().is_ivar()
    }

    /// The field name that this instance variable stands for: the text with its
    /// leading `@` removed, or `None` when the text does not start with `@`.
    pub fn as_rust_field_name(&self) -> (r: Option<Sym<'_>>)
        ensures
            is_ivar_name(self@) ==> (r matches Some(f) && f@ == self@.drop_first()),
            !is_ivar_name(self@) ==> r is None,
    {
        let s = self.as_sym();
        s.to_rust_field_name()
    }
}

impl PartialEq for Symbol {
    fn eq(&self, other: &Symbol) -> (b: bool) {
        self.0 == other.0
    }
}

impl vstd::std_specs::cmp::PartialEqSpecImpl for Symbol {
    open spec fn obeys_eq_spec() -> bool {
        true
    }

    open spec fn eq_spec(&self, other: &Symbol) -> bool {
        self@ == other@
    }
}

impl From<String> for Symbol {
    fn from(value: String) -> (s: Symbol) {
        Symbol(value)
    }
}

impl vstd::std_specs::convert::FromSpecImpl<String> for Symbol {
    open spec fn obeys_from_spec() -> bool {
        true
    }

    open spec fn from_spec(v: String) -> Symbol {
        Symbol(v)
    }
}

impl From<Symbol> for String {
    fn from(value: Symbol) -> (s: String) {
        value.0
    }
}

impl vstd::std_specs::convert::FromSpecImpl<Symbol> for String {
    open spec fn obeys_from_spec() -> bool {
        true
    }

    open spec fn from_spec(v: Symbol) -> String {
        v.0
    }
}

impl Symbol {
    /// A symbol with a copy of the given text.
    pub fn from_text(text: &str) -> (s: Symbol)
        ensures
            s@ == text@,
    {
        Symbol::new(String::from_str(text))
    }
}

/// A symbol with a copy of the given text. The trait's own spec names no
/// result, since no spec function can build the `String` inside; this impl
/// states what the symbol holds.
impl<'a> From<&'a str> for Symbol {
    fn from(value: &'a str) -> (s: Symbol)
        ensures
            s@ == value@,
    {
        Symbol::from_text(value)
    }
}

impl<'a> vstd::std_specs::convert::FromSpecImpl<&'a str> for Symbol {
    open spec fn obeys_from_spec() -> bool {
        false
    }

    open spec fn from_spec(v: &'a str) -> Symbol {
        choose|s: Symbol| s@ == v@
    }
}

} // verus!
