//! Errors reported by the language front end and interpreter.
use vstd::prelude::*;
use crate::text::{owned, push_str};

verus! {

/// An error raised while resolving types, parsing or running a program.
#[derive(Debug)]
pub enum LangError {
    UnknownType(String),
    Parse(String),
    Type(String),
    Runtime(String),
}

/// The mathematical content of a [`LangError`]: its kind and its message.
pub enum LangErrorV {
    UnknownType(Seq<char>),
    Parse(Seq<char>),
    Type(Seq<char>),
    Runtime(Seq<char>),
}

impl View for LangError {
    type V = LangErrorV;

    open spec fn view(&self) -> LangErrorV {
        match self {
            LangError::UnknownType(s) => LangErrorV::UnknownType(s@),
            LangError::Parse(s) => LangErrorV::Parse(s@),
            LangError::Type(s) => LangErrorV::Type(s@),
            LangError::Runtime(s) => LangErrorV::Runtime(s@),
        }
    }
}

/// What `Display` writes for an error.
pub open spec fn lang_error_text(e: LangErrorV) -> Seq<char> {
    match e {
        LangErrorV::UnknownType(s) => "Unknown type `"@ + s + "`"@,
        LangErrorV::Parse(s) => "Parse error: "@ + s,
        LangErrorV::Type(s) => "Type error: "@ + s,
        LangErrorV::Runtime(s) => "Runtime error: "@ + s,
    }
}

impl LangError {
    /// A parse error carrying `message`.
    pub fn parse(message: &str) -> (r: LangError)
        ensures
            r@ == LangErrorV::Parse(message@),
    {
        LangError::Parse(owned(message))
    }

    /// An error naming a type that the registry does not know.
    pub fn unknown_type(name: &str) -> (r: LangError)
        ensures
            r@ == LangErrorV::UnknownType(name@),
    {
        LangError::UnknownType(owned(name))
    }

    /// The text that the error displays as.
    pub fn to_display_string(&self) -> (r: String)
        ensures
            r@ == lang_error_text(self@),
    {
        match self {
            LangError::UnknownType(s) => {
                let mut out = owned("Unknown type `");
                push_str(&mut out, s.as_str());
                push_str(&mut out, "`");
                out
            },
            LangError::Parse(s) => {
                let mut out = owned("Parse error: ");
                push_str(&mut out, s.as_str());
                out
            },
            LangError::Type(s) => {
                let mut out = owned("Type error: ");
                push_str(&mut out, s.as_str());
                out
            },
            LangError::Runtime(s) => {
                let mut out = owned("Runtime error: ");
                push_str(&mut out, s.as_str());
                out
            },
        }
    }
}

/// A lexing or parsing error; it displays as its message.
#[derive(Debug)]
pub struct SyntaxError {
    message: String,
}

impl View for SyntaxError {
    type V = Seq<char>;

    closed spec fn view(&self) -> Seq<char> {
        self.message@
    }
}

impl SyntaxError {
    /// An error with the given message.
    pub fn new(message: String) -> (r: SyntaxError)
        ensures
            r@ == message@,
    {
        SyntaxError { message }
    }

    /// The message, which is also what the error displays as.
    pub fn message(&self) -> (r: &str)
        ensures
            r@ == self@,
    {
        self.message.as_str()
    }
}

} // verus!
