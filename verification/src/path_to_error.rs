//! Where in a value an error came from: a trace of the values being read.
use vstd::prelude::*;
use vstd::string::StringExecFns;

use crate::de::error::shown_sym;
use crate::fmt::{decimal, int_decimal, push_decimal, push_i32};
use crate::rb_types::rb_string::{lossy_text, utf8_lossy_text};
use crate::rb_types::symbol::Symbol;

verus! {

broadcast use vstd::std_specs::vec::group_vec_axioms, vstd::seq::group_seq_axioms;

/// One value being read when an error came.
#[derive(Debug)]
pub enum Context {
    Nil,
    Bool(bool),
    Int(i32),
    /// A float, by the text that Marshal stores for it.
    Float(Vec<u8>),
    Hash(usize),
    HashKey(usize),
    HashValue(usize),
    Array(usize),
    ArrayIndex(usize),
    String(String),
    Symbol(Symbol),
    Regex(String, u8),
    Object(Symbol, usize),
    Struct(Symbol, usize),
    FetchingField(usize),
    Field(Option<Symbol>, usize),
    Class(Symbol),
    Module(Symbol),
    Instance,
    Extended(Symbol),
    UserClass(Symbol),
    UserData(Symbol),
    UserMarshal(Symbol),
    ProcessingData(Symbol),
}

/// The decimal text of a count.
pub open spec fn count_text(n: usize) -> Seq<char> {
    decimal(n as nat)
}

/// What a context says.
pub open spec fn context_text(c: Context) -> Seq<char> {
    match c {
        Context::Nil => "while processing a nil"@,
        Context::Bool(b) => "while processing a boolean: "@ + (if b { "true"@ } else { "false"@ }),
        Context::Int(i) => "while processing an integer: "@ + int_decimal(i as int),
        Context::Float(t) => "while processing a float: "@ + utf8_lossy_text(t@),
        Context::Hash(n) => "while processing a hash with "@ + count_text(n) + " entries"@,
        Context::HashKey(n) => "while processing the "@ + count_text(n) + " key of a hash"@,
        Context::HashValue(n) => "while processing the "@ + count_text(n) + " value of a hash"@,
        Context::Array(n) => "while processing an array with "@ + count_text(n) + " elements"@,
        Context::ArrayIndex(n) => "while processing the "@ + count_text(n) + " element of an array"@,
        Context::String(s) => "while processing a string: "@ + s@,
        Context::Symbol(s) => "while processing a symbol: "@ + shown_sym(s@),
        Context::Regex(s, flags) => "while processing a regex: /"@ + s@ + "/ "@ + decimal(
            flags as nat,
        ),
        Context::Object(c, n) => "while processing an instance of "@ + shown_sym(c@) + " with "@
            + count_text(n) + " ivars"@,
        Context::Struct(c, n) => "while processing a struct of "@ + shown_sym(c@) + " with "@
            + count_text(n) + " ivars"@,
        Context::FetchingField(n) => "while fetching the "@ + count_text(n) + " field"@,
        Context::Field(Some(f), n) => "while processing "@ + shown_sym(f@) + " (field index "@
            + count_text(n) + ")"@,
        Context::Field(None, n) => "while processing an invalid field at index "@ + count_text(n),
        Context::Class(c) => "while processing a class: "@ + shown_sym(c@),
        Context::Module(c) => "while processing a module: "@ + shown_sym(c@),
        Context::Instance => "while processing an instance"@,
        Context::Extended(c) => "while processing an object extended by "@ + shown_sym(c@),
        Context::UserClass(c) => "while processing a user class: "@ + shown_sym(c@),
        Context::UserData(c) => "while processing user data: "@ + shown_sym(c@),
        Context::UserMarshal(c) => "while processing user marshal: "@ + shown_sym(c@),
        Context::ProcessingData(c) => "while processing data: "@ + shown_sym(c@),
    }
}

fn push_sym(out: &mut String, s: &Symbol)
    ensures
        final(out)@ == old(out)@ + shown_sym(s@),
{
    out.append(":");
    proof {
        reveal_strlit(":");
    }
    out.append(s.as_str());
}

fn push_count(out: &mut String, before: &str, n: usize, after: &str)
    ensures
        final(out)@ == old(out)@ + before@ + count_text(n) + after@,
{
    out.append(before);
    push_decimal(out, n);
    out.append(after);
}

fn push_named(out: &mut String, before: &str, s: &Symbol)
    ensures
        final(out)@ == old(out)@ + before@ + shown_sym(s@),
{
    out.append(before);
    push_sym(out, s);
}

impl Context {
    /// What this context says.
    pub fn describe(&self) -> (s: String)
        ensures
            s@ == context_text(*self),
    {
        let mut out = String::new();
        proof {
            reveal_strlit("true");
            reveal_strlit("false");
        }
        match self {
            Context::Nil => out.append("while processing a nil"),
            Context::Bool(b) => {
                out.append("while processing a boolean: ");
                if *b {
                    out.append("true");
                } else {
                    out.append("false");
                }
            },
            Context::Int(i) => {
                out.append("while processing an integer: ");
                push_i32(&mut out, *i);
            },
            Context::Float(t) => {
                out.append("while processing a float: ");
                let text = lossy_text(t.as_slice());
                out.append(text.as_str());
            },
            Context::Hash(n) => push_count(&mut out, "while processing a hash with ", *n, " entries"),
            Context::HashKey(n) => push_count(&mut out, "while processing the ", *n, " key of a hash"),
            Context::HashValue(n) => push_count(
                &mut out,
                "while processing the ",
                *n,
                " value of a hash",
            ),
            Context::Array(n) => push_count(
                &mut out,
                "while processing an array with ",
                *n,
                " elements",
            ),
            Context::ArrayIndex(n) => push_count(
                &mut out,
                "while processing the ",
                *n,
                " element of an array",
            ),
            Context::String(s) => {
                out.append("while processing a string: ");
                out.append(s.as_str());
            },
            Context::Symbol(s) => push_named(&mut out, "while processing a symbol: ", s),
            Context::Regex(s, flags) => {
                out.append("while processing a regex: /");
                out.append(s.as_str());
                out.append("/ ");
                push_decimal(&mut out, *flags as usize);
            },
            Context::Object(c, n) => {
                push_named(&mut out, "while processing an instance of ", c);
                push_count(&mut out, " with ", *n, " ivars");
            },
            Context::Struct(c, n) => {
                push_named(&mut out, "while processing a struct of ", c);
                push_count(&mut out, " with ", *n, " ivars");
            },
            Context::FetchingField(n) => push_count(&mut out, "while fetching the ", *n, " field"),
            Context::Field(Some(f), n) => {
                push_named(&mut out, "while processing ", f);
                push_count(&mut out, " (field index ", *n, ")");
            },
            Context::Field(None, n) => push_count(
                &mut out,
                "while processing an invalid field at index ",
                *n,
                "",
            ),
            Context::Class(c) => push_named(&mut out, "while processing a class: ", c),
            Context::Module(c) => push_named(&mut out, "while processing a module: ", c),
            Context::Instance => out.append("while processing an instance"),
            Context::Extended(c) => push_named(&mut out, "while processing an object extended by ", c),
            Context::UserClass(c) => push_named(&mut out, "while processing a user class: ", c),
            Context::UserData(c) => push_named(&mut out, "while processing user data: ", c),
            Context::UserMarshal(c) => push_named(&mut out, "while processing user marshal: ", c),
            Context::ProcessingData(c) => push_named(&mut out, "while processing data: ", c),
        }
        proof {
            reveal_strlit("");
        }
        assert(out@ =~= context_text(*self));
        out
    }
}

/// Like a stack trace, but for reading a value: the values being read when
/// an error came, the one furthest down first.
#[derive(Debug, Default)]
pub struct Trace {
    /// The contexts, the one furthest down first.
    pub context: Vec<Context>,
}

/// What a trace says: each context on a line of its own, the outermost
/// first.
pub open spec fn trace_text(c: Seq<Context>) -> Seq<char>
    decreases c.len(),
{
    if c.len() == 0 {
        Seq::empty()
    } else {
        context_text(c.last()) + seq!['\n'] + trace_text(c.drop_last())
    }
}

impl Trace {
    /// An empty trace.
    pub fn new() -> (t: Trace)
        ensures
            t.context@.len() == 0,
    {
        Trace { context: Vec::new() }
    }

    /// Adds the context of a value being read, further up than the others.
    pub fn push(&mut self, context: Context)
        ensures
            final(self).context@ == old(self).context@.push(context),
    {
        self.context.push(context);
    }

    /// What this trace says: each context on a line, the outermost first.
    pub fn describe(&self) -> (s: String)
        ensures
            s@ == trace_text(self.context@),
    {
        let mut out = String::new();
        let mut i: usize = self.context.len();
        assert(self.context@.take(i as int) =~= self.context@);
        assert(out@ + trace_text(self.context@) =~= trace_text(self.context@));
        while i > 0
            invariant
                i <= self.context@.len(),
                trace_text(self.context@) == out@ + trace_text(self.context@.take(i as int)),
            decreases i,
        {
            let ghost before = self.context@.take(i as int);
            i = i - 1;
            let line = self.context[i].describe();
            out.append(line.as_str());
            out.append("\n");
            proof {
                reveal_strlit("\n");
                assert(before.drop_last() =~= self.context@.take(i as int));
                assert(before.last() == self.context@[i as int]);
            }
        }
        assert(self.context@.take(0) =~= Seq::<Context>::empty());
        out
    }
}

} // verus!
