//! Errors of the writer.
use vstd::prelude::*;
use vstd::string::StringExecFns;

use crate::fmt::{decimal, push_decimal};

verus! {

/// A writer error.
#[derive(Debug)]
pub struct Error {
    /// What went wrong.
    pub kind: Kind,
}

/// What went wrong while writing.
#[derive(Debug)]
pub enum Kind {
    /// More entries were written than the announced length: (entries, length).
    OvershotProvidedLen(usize, usize),
    /// Fewer entries were written than the announced length: (entries, length).
    UndershotProvidedLen(usize, usize),
    /// A custom message.
    Message(String),
    /// A key was written when its value was due.
    KeyAfterKey,
    /// A value was written when a key was due.
    ValueAfterValue,
}

/// The model of a writer error kind, with the text of a message in place of
/// the string.
pub enum SerKindModel {
    OvershotProvidedLen(usize, usize),
    UndershotProvidedLen(usize, usize),
    Message(Seq<char>),
    KeyAfterKey,
    ValueAfterValue,
}

impl View for Error {
    type V = SerKindModel;

    open spec fn view(&self) -> SerKindModel {
        match &self.kind {
            Kind::OvershotProvidedLen(a, b) => SerKindModel::OvershotProvidedLen(*a, *b),
            Kind::UndershotProvidedLen(a, b) => SerKindModel::UndershotProvidedLen(*a, *b),
            Kind::Message(m) => SerKindModel::Message(m@),
            Kind::KeyAfterKey => SerKindModel::KeyAfterKey,
            Kind::ValueAfterValue => SerKindModel::ValueAfterValue,
        }
    }
}

impl Error {
    /// An error that carries a message of its own.
    pub fn custom(message: &str) -> (e: Error)
        ensures
            e@ == SerKindModel::Message(message@),
    {
        Error { kind: Kind::Message(String::from_str(message)) }
    }
}

/// The message of a writer error of this kind.
pub open spec fn ser_kind_text(k: SerKindModel) -> Seq<char> {
    match k {
        SerKindModel::OvershotProvidedLen(a, b) => "Overshot the provided len "@ + decimal(a as nat)
            + " > "@ + decimal(b as nat),
        SerKindModel::UndershotProvidedLen(a, b) => "Undershot the provided len "@ + decimal(
            a as nat,
        ) + " < "@ + decimal(b as nat),
        SerKindModel::Message(m) => "Custom error: "@ + m,
        SerKindModel::KeyAfterKey => "Tried to serialize a key without a value"@,
        SerKindModel::ValueAfterValue => "Tried to serialize a value before its key"@,
    }
}

impl Error {
    /// The message of this error.
    pub fn message(&self) -> (s: String)
        ensures
            s@ == ser_kind_text(self@),
    {
        let mut out = String::new();
        match &self.kind {
            Kind::OvershotProvidedLen(a, b) => {
                out.append("Overshot the provided len ");
                push_decimal(&mut out, *a);
                out.append(" > ");
                push_decimal(&mut out, *b);
            },
            Kind::UndershotProvidedLen(a, b) => {
                out.append("Undershot the provided len ");
                push_decimal(&mut out, *a);
                out.append(" < ");
                push_decimal(&mut out, *b);
            },
            Kind::Message(m) => {
                out.append("Custom error: ");
                out.append(m.as_str());
            },
            Kind::KeyAfterKey => out.append("Tried to serialize a key without a value"),
            Kind::ValueAfterValue => out.append("Tried to serialize a value before its key"),
        }
        assert(out@ =~= ser_kind_text(self@));
        out
    }
}

} // verus!
