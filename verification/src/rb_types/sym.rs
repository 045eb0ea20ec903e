//! Borrowed Ruby symbols.
use vstd::prelude::*;
use vstd::string::StrSliceExecFns;
use vstd::utf8::encode_utf8;
use vstd::string::StringExecFns;

use crate::rb_types::symbol::Symbol;

verus! {

/// Whether a symbol's text names an instance variable: it starts with `@`.
pub open spec fn is_ivar_name(s: Seq<char>) -> bool {
    s.len() > 0 && s[0] == '@'
}

/// A borrowed ruby symbol: the text of the symbol, without the leading `:`
/// that Ruby prints before it.
#[derive(Clone, Copy, Debug)]
pub struct Sym<'a> {
    pub(crate) text: &'a str,
}

impl<'a> View for Sym<'a> {
    type V = Seq<char>;

    closed spec fn view(&self) -> Seq<char> {
        self.text@
    }
}

impl<'a> Sym<'a> {
    /// Create a new symbol from a borrowed string.
    pub fn new(text: &'a str) -> (s: Sym<'a>)
        ensures
            s@ == text@,
    {
        Sym { text }
    }

    /// The text of this symbol.
    pub fn as_str(&self) -> (s: &'a str)
        ensures
            s@ == self@,
    {
        self.text
    }

    /// Returns true if the symbol has no text.
    pub fn is_empty(&self) -> (b: bool)
        ensures
            b == (self@.len() == 0),
    {
        self.text.is_empty()
    }

    /// Returns true if the text starts with an `@`, that is, if the symbol
    /// names an instance variable.
    pub fn is_ivar(&self) -> (b: bool)
        ensures
            b == is_ivar_name(self@),
    {
        if self.text.is_empty() {
            false
        } else {
            self.text.get_char(0) == '@'
        }
    }

    /// The instance-variable form of this symbol: the symbol itself when it
    /// already starts with `@`, and the symbol with `@` put in front otherwise.
    pub fn to_ivar(&self) -> (s: Symbol)
        ensures
            is_ivar_name(self@) ==> s@ == self@,
            !is_ivar_name(self@) ==> s@ == seq!['@'] + self@,
    {
        if self.is_ivar() {
            Symbol::new(String::from_str(self.text))
        } else {
            let mut text = String::from_str("@");
            proof {
                reveal_strlit("@");
            }
            text.append(self.text);
            Symbol::new(text)
        }
    }

    /// The field name that this instance variable stands for: the text with its
    /// leading `@` removed, or `None` when the text does not start with `@`.
    pub fn to_rust_field_name(&self) -> (r: Option<Sym<'a>>)
        ensures
            is_ivar_name(self@) ==> (r matches Some(f) && f@ == self@.drop_first()),
            !is_ivar_name(self@) ==> r is None,
    {
        if self.is_ivar() {
            let n = self.text.unicode_len();
            Some(Sym { text: self.text.substring_char(1, n) })
        } else {
            None
        }
    }

    /// An owned copy of this symbol.
    pub fn to_symbol(&self) -> (s: Symbol)
        ensures
            s@ == self@,
    {
        Symbol::new(String::from_str(self.text))
    }

    /// The length of the text in bytes (its UTF-8 encoding).
    pub fn len(&self) -> (n: usize)
        ensures
            n == encode_utf8(self@).len() as usize,
    {
        self.text.len()
    }
}

} // verus!
