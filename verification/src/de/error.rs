//! Errors of the reader.
use vstd::prelude::*;
use vstd::string::StringExecFns;

use crate::fmt::{decimal, int_decimal, push_decimal, push_i32};
use crate::rb_types::rb_string::{lossy_text, utf8_lossy_text};
use crate::rb_types::sym::Sym;
use crate::tag::Tag;

verus! {

/// std's `Utf8Error`, carried by [`Kind::SymbolInvalidUTF8`]; nothing inside
/// it is read.
#[verifier::external_type_specification]
#[verifier::external_body]
pub struct ExUtf8Error(std::str::Utf8Error);

/// A reader error.
#[derive(Debug)]
pub struct Error {
    /// What went wrong.
    pub kind: Kind,
}

/// What went wrong while reading.
#[derive(Debug)]
pub enum Kind {
    /// A length was negative when it should not have been.
    UnexpectedNegativeLength(i32),
    /// Unrecognized tag was encountered.
    WrongTag(u8),
    /// A symbol was invalid utf8.
    SymbolInvalidUTF8(std::str::Utf8Error),
    /// A symbol link was not valid (probably too large).
    UnresolvedSymlink(usize),
    /// An object link was not valid (probably too large).
    UnresolvedObjectlink(usize),
    /// A float's mantissa was too long.
    ParseFloatMantissaTooLong,
    /// A symbol was expected (usually for a class name) and something else was found.
    ExpectedSymbol(Tag),
    /// End of input.
    Eof,
    /// The version bytes were not `[4, 8]`.
    VersionError([u8; 2]),
    /// A custom message.
    Message(String),
    /// A key was read when its value was expected.
    KeyAfterKey,
    /// A value was read when a key was expected.
    ValueAfterValue,
    /// An object link pointed back into the object that holds it.
    CircularReference,
}

/// The model of an error kind: the same kinds, with the text of a message in
/// place of the string and without the details of a UTF-8 error.
pub enum KindModel {
    UnexpectedNegativeLength(i32),
    WrongTag(u8),
    SymbolInvalidUtf8,
    UnresolvedSymlink(usize),
    UnresolvedObjectlink(usize),
    ParseFloatMantissaTooLong,
    ExpectedSymbol(Tag),
    Eof,
    VersionError(u8, u8),
    Message(Seq<char>),
    KeyAfterKey,
    ValueAfterValue,
    CircularReference,
}

impl View for Kind {
    type V = KindModel;

    open spec fn view(&self) -> KindModel {
        match self {
            Kind::UnexpectedNegativeLength(i) => KindModel::UnexpectedNegativeLength(*i),
            Kind::WrongTag(b) => KindModel::WrongTag(*b),
            Kind::SymbolInvalidUTF8(_) => KindModel::SymbolInvalidUtf8,
            Kind::UnresolvedSymlink(i) => KindModel::UnresolvedSymlink(*i),
            Kind::UnresolvedObjectlink(i) => KindModel::UnresolvedObjectlink(*i),
            Kind::ParseFloatMantissaTooLong => KindModel::ParseFloatMantissaTooLong,
            Kind::ExpectedSymbol(t) => KindModel::ExpectedSymbol(*t),
            Kind::Eof => KindModel::Eof,
            Kind::VersionError(v) => KindModel::VersionError(v[0], v[1]),
            Kind::Message(m) => KindModel::Message(m@),
            Kind::KeyAfterKey => KindModel::KeyAfterKey,
            Kind::ValueAfterValue => KindModel::ValueAfterValue,
            Kind::CircularReference => KindModel::CircularReference,
        }
    }
}

impl View for Error {
    type V = KindModel;

    open spec fn view(&self) -> KindModel {
        self.kind@
    }
}

/// The result is the error of kind `k`.
pub open spec fn fails_with<T>(r: Result<T, Error>, k: KindModel) -> bool {
    match r {
        Ok(_) => false,
        Err(e) => e@ == k,
    }
}

/// The result agrees with the model result `m`: the same value, or an
/// error of the same kind.
pub open spec fn agrees<T>(r: Result<T, Error>, m: Result<T, KindModel>) -> bool {
    match (r, m) {
        (Ok(a), Ok(b)) => a == b,
        (Err(e), Err(k)) => e@ == k,
        _ => false,
    }
}

/// The result agrees with the model result `m` through the view of its
/// value.
pub open spec fn agrees_view<T: View>(r: Result<T, Error>, m: Result<T::V, KindModel>) -> bool {
    match (r, m) {
        (Ok(a), Ok(b)) => a@ == b,
        (Err(e), Err(k)) => e@ == k,
        _ => false,
    }
}

/// Whether a byte prints as itself in a message: a visible ASCII character.
pub open spec fn is_printable_ascii(b: u8) -> bool {
    0x21 <= b <= 0x7e
}

/// The character that a message shows for an unknown tag byte: the byte
/// itself when it is visible ASCII, `.` otherwise.
pub fn unknown_tag_to_char(tag: u8) -> (c: char)
    ensures
        is_printable_ascii(tag) ==> c == tag as char,
        !is_printable_ascii(tag) ==> c == '.',
{
    if 0x21 <= tag && tag <= 0x7e {
        tag as char
    } else {
        '.'
    }
}

/// How a symbol is shown in a message: its text after a `:`.
pub open spec fn shown_sym(s: Seq<char>) -> Seq<char> {
    seq![':'] + s
}

/// A symbol shown in backquotes.
pub open spec fn quoted_sym(s: Seq<char>) -> Seq<char> {
    seq!['`'] + shown_sym(s) + seq!['`']
}

/// The symbols of a list, each in backquotes, separated by `, `.
pub open spec fn quoted_list(s: Seq<Seq<char>>) -> Seq<char>
    decreases s.len(),
{
    if s.len() == 0 {
        Seq::empty()
    } else if s.len() == 1 {
        quoted_sym(s[0])
    } else {
        quoted_list(s.drop_last()) + seq![',', ' '] + quoted_sym(s.last())
    }
}

/// What an unknown-field message says of the fields that were expected.
pub open spec fn one_of(s: Seq<Seq<char>>) -> Seq<char> {
    if s.len() == 0 {
        "there should be none"@
    } else if s.len() == 1 {
        "expected "@ + quoted_sym(s[0])
    } else if s.len() == 2 {
        "expected "@ + quoted_sym(s[0]) + " or "@ + quoted_sym(s[1])
    } else {
        quoted_list(s)
    }
}

/// The texts of a list of symbols.
pub open spec fn sym_texts(s: Seq<Sym>) -> Seq<Seq<char>> {
    s.map_values(|x: Sym| x@)
}

fn push_sym(out: &mut String, s: Sym)
    ensures
        final(out)@ == old(out)@ + shown_sym(s@),
{
    out.append(":");
    proof {
        reveal_strlit(":");
    }
    out.append(s.as_str());
}

fn push_quoted_sym(out: &mut String, s: Sym)
    ensures
        final(out)@ == old(out)@ + quoted_sym(s@),
{
    out.append("`");
    proof {
        reveal_strlit("`");
    }
    push_sym(out, s);
    out.append("`");
}

/// Something that can say what a reader expected, for error messages.
pub trait Expected {
    /// The text that says what was expected.
    spec fn expected_text(&self) -> Seq<char>;

    /// Writes what was expected.
    fn expecting(&self) -> (s: String)
        ensures
            s@ == self.expected_text(),
    ;
}

impl<'a> Expected for &'a str {
    open spec fn expected_text(&self) -> Seq<char> {
        (*self)@
    }

    fn expecting(&self) -> (s: String) {
        String::from_str(*self)
    }
}

impl Error {
    /// An error that carries a message of its own.
    pub fn custom(msg: &str) -> (e: Error)
        ensures
            e@ == KindModel::Message(msg@),
    {
        Error { kind: Kind::Message(String::from_str(msg)) }
    }

    /// An error for a collection whose length was not the expected one.
    pub fn invalid_length<E: Expected>(len: usize, exp: &E) -> (e: Error)
        ensures
            e@ == KindModel::Message(
                "invalid length: "@ + decimal(len as nat) + ", expected `"@ + exp.expected_text()
                    + "`"@,
            ),
    {
        let mut m = String::from_str("invalid length: ");
        push_decimal(&mut m, len);
        m.append(", expected `");
        let text = exp.expecting();
        m.append(text.as_str());
        m.append("`");
        Error { kind: Kind::Message(m) }
    }

    /// An error for a field that the reader did not expect.
    pub fn unknown_field(field: Sym, expected: &[Sym]) -> (e: Error)
        ensures
            e@ == KindModel::Message(
                "unknown field "@ + shown_sym(field@) + ", "@ + one_of(sym_texts(expected@)),
            ),
    {
        let mut m = String::from_str("unknown field ");
        push_sym(&mut m, field);
        m.append(", ");
        let ghost prefix = m@;
        let ghost texts = sym_texts(expected@);
        let n = expected.len();
        assert(texts.len() == n);
        assert(n > 0 ==> texts[0] == expected@[0]@);
        assert(n > 1 ==> texts[1] == expected@[1]@);
        if n == 0 {
            m.append("there should be none");
        } else if n == 1 {
            m.append("expected ");
            push_quoted_sym(&mut m, expected[0]);
        } else if n == 2 {
            m.append("expected ");
            push_quoted_sym(&mut m, expected[0]);
            m.append(" or ");
            push_quoted_sym(&mut m, expected[1]);
        } else {
            let mut i: usize = 0;
            while i < n
                invariant
                    n == expected@.len(),
                    texts == sym_texts(expected@),
                    i <= n,
                    m@ == prefix + quoted_list(texts.take(i as int)),
                decreases n - i,
            {
                if i > 0 {
                    m.append(", ");
                    proof {
                        reveal_strlit(", ");
                    }
                }
                push_quoted_sym(&mut m, expected[i]);
                proof {
                    assert(texts[i as int] == expected@[i as int]@);
                    let t = texts.take(i + 1);
                    assert(t.drop_last() =~= texts.take(i as int));
                    if i == 0 {
                        assert(texts.take(0) =~= Seq::<Seq<char>>::empty());
                    }
                }
                i = i + 1;
            }
            assert(texts.take(n as int) =~= texts);
        }
        assert(m@ == prefix + one_of(texts));
        Error { kind: Kind::Message(m) }
    }

    /// An error for a field that was required and not given.
    pub fn missing_field(field: Sym) -> (e: Error)
        ensures
            e@ == KindModel::Message("missing field "@ + quoted_sym(field@)),
    {
        let mut m = String::from_str("missing field ");
        push_quoted_sym(&mut m, field);
        Error { kind: Kind::Message(m) }
    }

    /// An error for a field that was given twice.
    pub fn duplicate_field(field: Sym) -> (e: Error)
        ensures
            e@ == KindModel::Message("duplicate field "@ + quoted_sym(field@)),
    {
        let mut m = String::from_str("duplicate field ");
        push_quoted_sym(&mut m, field);
        Error { kind: Kind::Message(m) }
    }
}

/// What `format!("{:?}", s)` writes for a string: the text in double
/// quotes, with quotes, backslashes and control characters escaped.
pub uninterp spec fn debug_quoted(s: Seq<char>) -> Seq<char>;

/// `<str as Debug>::fmt`, through `format!`. The contract names the text
/// it writes, `debug_quoted` of the string; the escaping rules are left
/// unsaid.
#[verifier::external_body]
fn quoted(s: &str) -> (r: String)
    ensures
        r@ == debug_quoted(s@),
{
    format!("{:?}", s)
}

/// What a reader found where it expected something else.
#[derive(Clone, Copy, Debug)]
pub enum Unexpected<'a> {
    Nil,
    Bool(bool),
    Integer(i32),
    /// A float, by the text that Marshal stores for it.
    Float(&'a [u8]),
    Hash,
    Array,
    String(&'a [u8]),
    Symbol(Sym<'a>),
    Regex(&'a [u8]),
    Object(Sym<'a>),
    Struct(Sym<'a>),
    Class(Sym<'a>),
    Module(Sym<'a>),
    Instance,
    Extended(Sym<'a>),
    UserClass(Sym<'a>),
    UserData(Sym<'a>),
    UserMarshal(Sym<'a>),
    Data(Sym<'a>),
}

/// A symbol in backquotes, after a description.
pub open spec fn named(what: Seq<char>, s: Seq<char>) -> Seq<char> {
    what + quoted_sym(s)
}

/// How an unexpected value is described in a message.
pub open spec fn unexpected_text(u: Unexpected) -> Seq<char> {
    match u {
        Unexpected::Nil => "nil"@,
        Unexpected::Bool(b) => "bool `"@ + (if b { "true"@ } else { "false"@ }) + "`"@,
        Unexpected::Integer(i) => "integer `"@ + int_decimal(i as int) + "`"@,
        Unexpected::Float(t) => "float `"@ + utf8_lossy_text(t@) + "`"@,
        Unexpected::Hash => "hash"@,
        Unexpected::Array => "array"@,
        Unexpected::String(s) => "string "@ + debug_quoted(utf8_lossy_text(s@)),
        Unexpected::Symbol(s) => named("symbol "@, s@),
        Unexpected::Regex(s) => "string "@ + debug_quoted(utf8_lossy_text(s@)),
        Unexpected::Object(c) => named("an instance of "@, c@),
        Unexpected::Struct(c) => named("a struct of "@, c@),
        Unexpected::Class(c) => named("class "@, c@),
        Unexpected::Module(c) => named("module "@, c@),
        Unexpected::Instance => "object with ivars"@,
        Unexpected::Extended(c) => named("extended object "@, c@),
        Unexpected::UserClass(c) => named("user class object "@, c@),
        Unexpected::UserData(c) => named("user data object "@, c@),
        Unexpected::UserMarshal(c) => named("user marshal object "@, c@),
        Unexpected::Data(c) => named("c data object "@, c@),
    }
}

fn push_named(out: &mut String, what: &str, s: Sym)
    ensures
        final(out)@ == old(out)@ + named(what@, s@),
{
    out.append(what);
    push_quoted_sym(out, s);
    assert(final(out)@ =~= old(out)@ + named(what@, s@));
}

impl<'a> Unexpected<'a> {
    /// The description of this value in a message.
    pub fn describe(&self) -> (s: String)
        ensures
            s@ == unexpected_text(*self),
    {
        let mut out = String::new();
        proof {
            reveal_strlit("nil");
            reveal_strlit("bool `");
            reveal_strlit("true");
            reveal_strlit("false");
            reveal_strlit("`");
            reveal_strlit("integer `");
            reveal_strlit("float `");
            reveal_strlit("hash");
            reveal_strlit("array");
            reveal_strlit("string ");
            reveal_strlit("object with ivars");
        }
        match self {
            Unexpected::Nil => out.append("nil"),
            Unexpected::Bool(b) => {
                out.append("bool `");
                if *b {
                    out.append("true");
                } else {
                    out.append("false");
                }
                out.append("`");
            },
            Unexpected::Integer(i) => {
                out.append("integer `");
                push_i32(&mut out, *i);
                out.append("`");
            },
            Unexpected::Float(t) => {
                out.append("float `");
                let text = lossy_text(t);
                out.append(text.as_str());
                out.append("`");
            },
            Unexpected::Hash => out.append("hash"),
            Unexpected::Array => out.append("array"),
            Unexpected::String(s) => {
                out.append("string ");
                let text = lossy_text(s);
                let q = quoted(text.as_str());
                out.append(q.as_str());
            },
            Unexpected::Symbol(s) => push_named(&mut out, "symbol ", *s),
            Unexpected::Regex(s) => {
                out.append("string ");
                let text = lossy_text(s);
                let q = quoted(text.as_str());
                out.append(q.as_str());
            },
            Unexpected::Object(c) => push_named(&mut out, "an instance of ", *c),
            Unexpected::Struct(c) => push_named(&mut out, "a struct of ", *c),
            Unexpected::Class(c) => push_named(&mut out, "class ", *c),
            Unexpected::Module(c) => push_named(&mut out, "module ", *c),
            Unexpected::Instance => out.append("object with ivars"),
            Unexpected::Extended(c) => push_named(&mut out, "extended object ", *c),
            Unexpected::UserClass(c) => push_named(&mut out, "user class object ", *c),
            Unexpected::UserData(c) => push_named(&mut out, "user data object ", *c),
            Unexpected::UserMarshal(c) => push_named(&mut out, "user marshal object ", *c),
            Unexpected::Data(c) => push_named(&mut out, "c data object ", *c),
        }
        assert(out@ =~= unexpected_text(*self));
        out
    }
}

/// The message of an error for a value of the wrong kind.
pub open spec fn invalid_message(prefix: Seq<char>, u: Unexpected, exp: Seq<char>) -> Seq<char> {
    prefix + unexpected_text(u) + ", expected `"@ + exp + "`"@
}

impl Error {
    /// An error for a value of a kind the reader does not take.
    pub fn invalid_type<E: Expected>(unexpected: Unexpected, exp: &E) -> (e: Error)
        ensures
            e@ == KindModel::Message(invalid_message("invalid type: "@, unexpected, exp.expected_text())),
    {
        let mut m = String::from_str("invalid type: ");
        let d = unexpected.describe();
        m.append(d.as_str());
        m.append(", expected `");
        let text = exp.expecting();
        m.append(text.as_str());
        m.append("`");
        Error { kind: Kind::Message(m) }
    }

    /// An error for a value of the right kind that the reader does not take.
    pub fn invalid_value<E: Expected>(unexpected: Unexpected, exp: &E) -> (e: Error)
        ensures
            e@ == KindModel::Message(invalid_message("invalid value: "@, unexpected, exp.expected_text())),
    {
        let mut m = String::from_str("invalid value: ");
        let d = unexpected.describe();
        m.append(d.as_str());
        m.append(", expected `");
        let text = exp.expecting();
        m.append(text.as_str());
        m.append("`");
        Error { kind: Kind::Message(m) }
    }
}

/// The name of a tag, as its debug form writes it.
pub open spec fn tag_name(t: Tag) -> Seq<char> {
    match t {
        Tag::Nil => "Nil"@,
        Tag::True => "True"@,
        Tag::False => "False"@,
        Tag::Integer => "Integer"@,
        Tag::Float => "Float"@,
        Tag::String => "String"@,
        Tag::Array => "Array"@,
        Tag::Hash => "Hash"@,
        Tag::HashDefault => "HashDefault"@,
        Tag::Symbol => "Symbol"@,
        Tag::Symlink => "Symlink"@,
        Tag::Instance => "Instance"@,
        Tag::RawRegexp => "RawRegexp"@,
        Tag::ClassRef => "ClassRef"@,
        Tag::ModuleRef => "ModuleRef"@,
        Tag::Object => "Object"@,
        Tag::ObjectLink => "ObjectLink"@,
        Tag::UserDef => "UserDef"@,
        Tag::Struct => "Struct"@,
        Tag::UserClass => "UserClass"@,
        Tag::Extended => "Extended"@,
        Tag::UserMarshal => "UserMarshal"@,
        Tag::Data => "Data"@,
    }
}

fn tag_name_str(t: Tag) -> (s: &'static str)
    ensures
        s@ == tag_name(t),
{
    proof {
        reveal_strlit("Nil");
        reveal_strlit("True");
        reveal_strlit("False");
        reveal_strlit("Integer");
        reveal_strlit("Float");
        reveal_strlit("String");
        reveal_strlit("Array");
        reveal_strlit("Hash");
        reveal_strlit("HashDefault");
        reveal_strlit("Symbol");
        reveal_strlit("Symlink");
        reveal_strlit("Instance");
        reveal_strlit("RawRegexp");
        reveal_strlit("ClassRef");
        reveal_strlit("ModuleRef");
        reveal_strlit("Object");
        reveal_strlit("ObjectLink");
        reveal_strlit("UserDef");
        reveal_strlit("Struct");
        reveal_strlit("UserClass");
        reveal_strlit("Extended");
        reveal_strlit("UserMarshal");
        reveal_strlit("Data");
    }
    match t {
        Tag::Nil => "Nil",
        Tag::True => "True",
        Tag::False => "False",
        Tag::Integer => "Integer",
        Tag::Float => "Float",
        Tag::String => "String",
        Tag::Array => "Array",
        Tag::Hash => "Hash",
        Tag::HashDefault => "HashDefault",
        Tag::Symbol => "Symbol",
        Tag::Symlink => "Symlink",
        Tag::Instance => "Instance",
        Tag::RawRegexp => "RawRegexp",
        Tag::ClassRef => "ClassRef",
        Tag::ModuleRef => "ModuleRef",
        Tag::Object => "Object",
        Tag::ObjectLink => "ObjectLink",
        Tag::UserDef => "UserDef",
        Tag::Struct => "Struct",
        Tag::UserClass => "UserClass",
        Tag::Extended => "Extended",
        Tag::UserMarshal => "UserMarshal",
        Tag::Data => "Data",
    }
}

/// The uppercase hexadecimal digit for `d` (`0 <= d < 16`).
pub open spec fn hex_digit(d: nat) -> char {
    if d < 10 {
        crate::fmt::digit_char(d)
    } else if d == 10 {
        'A'
    } else if d == 11 {
        'B'
    } else if d == 12 {
        'C'
    } else if d == 13 {
        'D'
    } else if d == 14 {
        'E'
    } else {
        'F'
    }
}

/// The uppercase hexadecimal text of a byte, without leading zeros.
pub open spec fn hex_text(b: u8) -> Seq<char> {
    if b < 16 {
        seq![hex_digit(b as nat)]
    } else {
        seq![hex_digit((b / 16) as nat), hex_digit((b % 16) as nat)]
    }
}

fn hex_char(d: u8) -> (c: char)
    requires
        d < 16,
    ensures
        c == hex_digit(d as nat),
{
    if d < 10 {
        crate::fmt::digit_of(d)
    } else if d == 10 {
        'A'
    } else if d == 11 {
        'B'
    } else if d == 12 {
        'C'
    } else if d == 13 {
        'D'
    } else if d == 14 {
        'E'
    } else {
        'F'
    }
}

fn push_hex(out: &mut String, b: u8)
    ensures
        final(out)@ == old(out)@ + hex_text(b),
{
    if b >= 16 {
        out.push(hex_char(b / 16));
    }
    out.push(hex_char(b % 16));
    assert(final(out)@ =~= old(out)@ + hex_text(b));
}

/// What std's `Display` writes for a `Utf8Error`.
pub uninterp spec fn utf8_error_text(e: std::str::Utf8Error) -> Seq<char>;

/// `<Utf8Error as Display>::fmt`, through `format!`. The contract names the
/// text it writes, `utf8_error_text` of the error; its wording is left
/// unsaid.
#[verifier::external_body]
fn utf8_error_display(e: std::str::Utf8Error) -> (s: String)
    ensures
        s@ == utf8_error_text(e),
{
    format!("{}", e)
}

/// The message of a reader error of this kind.
pub open spec fn kind_text(k: Kind) -> Seq<char> {
    match k {
        Kind::UnexpectedNegativeLength(n) => "Unexpected negative length "@ + int_decimal(n as int),
        Kind::WrongTag(b) => "Wrong tag 0x"@ + hex_text(b) + " ("@ + seq![
            (if is_printable_ascii(b) { b as char } else { '.' }),
        ] + ")"@,
        Kind::SymbolInvalidUTF8(e) => "Symbol is invalid utf8 "@ + utf8_error_text(e),
        Kind::UnresolvedSymlink(i) => "Unresolved symlink "@ + decimal(i as nat),
        Kind::UnresolvedObjectlink(i) => "Unresolved Object link "@ + decimal(i as nat),
        Kind::ParseFloatMantissaTooLong => "Float mantissa too long"@,
        Kind::ExpectedSymbol(t) => "Expected a symbol got "@ + tag_name(t),
        Kind::Eof => "End of input"@,
        Kind::VersionError(v) => "Version error, expected [4, 8], got ["@ + decimal(v[0] as nat)
            + ", "@ + decimal(v[1] as nat) + "]"@,
        Kind::Message(m) => m@,
        Kind::KeyAfterKey => "Tried to deserialize a key without a value"@,
        Kind::ValueAfterValue => "Tried to deserialize a value before its key"@,
        Kind::CircularReference => "A circular reference was detected while deserializing an object link"@,
    }
}

impl Kind {
    /// The message of this kind of error.
    pub fn message(&self) -> (s: String)
        ensures
            s@ == kind_text(*self),
    {
        let mut out = String::new();
        match self {
            Kind::UnexpectedNegativeLength(n) => {
                out.append("Unexpected negative length ");
                push_i32(&mut out, *n);
            },
            Kind::WrongTag(b) => {
                out.append("Wrong tag 0x");
                push_hex(&mut out, *b);
                out.append(" (");
                out.push(unknown_tag_to_char(*b));
                out.append(")");
            },
            Kind::SymbolInvalidUTF8(e) => {
                out.append("Symbol is invalid utf8 ");
                let t = utf8_error_display(*e);
                out.append(t.as_str());
            },
            Kind::UnresolvedSymlink(i) => {
                out.append("Unresolved symlink ");
                push_decimal(&mut out, *i);
            },
            Kind::UnresolvedObjectlink(i) => {
                out.append("Unresolved Object link ");
                push_decimal(&mut out, *i);
            },
            Kind::ParseFloatMantissaTooLong => out.append("Float mantissa too long"),
            Kind::ExpectedSymbol(t) => {
                out.append("Expected a symbol got ");
                out.append(tag_name_str(*t));
            },
            Kind::Eof => out.append("End of input"),
            Kind::VersionError(v) => {
                out.append("Version error, expected [4, 8], got [");
                push_decimal(&mut out, v[0] as usize);
                out.append(", ");
                push_decimal(&mut out, v[1] as usize);
                out.append("]");
            },
            Kind::Message(m) => out.append(m.as_str()),
            Kind::KeyAfterKey => out.append("Tried to deserialize a key without a value"),
            Kind::ValueAfterValue => out.append("Tried to deserialize a value before its key"),
            Kind::CircularReference => out.append(
                "A circular reference was detected while deserializing an object link",
            ),
        }
        assert(out@ =~= kind_text(*self));
        out
    }
}

impl Error {
    /// The message of this error: that of its kind.
    pub fn message(&self) -> (s: String)
        ensures
            s@ == kind_text(self.kind),
    {
        self.kind.message()
    }
}

} // verus!
