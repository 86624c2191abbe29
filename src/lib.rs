//! A small arithmetic expression language: parsing, scoped evaluation with
//! closures, and decimal rendering of arbitrary-precision results.

pub mod ast;
pub mod context;
pub mod eval;
pub mod format;
pub mod number;
pub mod parser;
pub mod session;

use vstd::prelude::*;

verus! {

/// The errors that parsing or evaluating a statement can produce.
#[derive(Debug, Clone, PartialEq, Eq)]
pub enum CalcError {
    /// Symbol is not in context.
    NameNotFound(String),
    /// A name is already bound in the innermost frame, or names a builtin function.
    NameAlreadyBound(String),
    /// Function called with incorrect number of arguments: `IncorrectArity(expected, found)`.
    IncorrectArity(usize, usize),
    /// A numeric literal could not be turned into a number.
    ParseNum,
    /// The input does not follow the grammar, or input is left over.
    ParseError,
    /// Reserved for the host's input and output.
    IOError,
    /// Evaluation nested deeper than the evaluator's step budget.
    DepthExceeded,
}

/// What a `CalcError` holds.
pub enum CalcErrorV {
    NameNotFound(Seq<char>),
    NameAlreadyBound(Seq<char>),
    IncorrectArity(nat, nat),
    ParseNum,
    ParseError,
    IOError,
    DepthExceeded,
}

impl View for CalcError {
    type V = CalcErrorV;

    open spec fn view(&self) -> CalcErrorV {
        match self {
            CalcError::NameNotFound(s) => CalcErrorV::NameNotFound(s@),
            CalcError::NameAlreadyBound(s) => CalcErrorV::NameAlreadyBound(s@),
            CalcError::IncorrectArity(e, f) => CalcErrorV::IncorrectArity(*e as nat, *f as nat),
            CalcError::ParseNum => CalcErrorV::ParseNum,
            CalcError::ParseError => CalcErrorV::ParseError,
            CalcError::IOError => CalcErrorV::IOError,
            CalcError::DepthExceeded => CalcErrorV::DepthExceeded,
        }
    }
}

/// Text describing an error.
pub open spec fn message_text(e: CalcErrorV) -> Seq<char> {
    match e {
        CalcErrorV::NameNotFound(name) => "ERROR: Name not found: \""@ + name + "\""@,
        CalcErrorV::NameAlreadyBound(name) => "ERROR: Name already bound: \""@ + name + "\""@,
        CalcErrorV::IncorrectArity(expected, found) => "ERROR: Expected "@ + format::nat_chars(
            expected,
        ) + " arguments, found "@ + format::nat_chars(found),
        CalcErrorV::ParseNum => "ERROR: Number parsing error"@,
        CalcErrorV::ParseError => "ERROR: Parsing error"@,
        CalcErrorV::IOError => "ERROR: IO error"@,
        CalcErrorV::DepthExceeded => "ERROR: Evaluation nested too deeply"@,
    }
}

impl CalcError {
    /// Text describing the error.
    pub fn message(&self) -> (r: String)
        ensures
            r@ == message_text(self@),
    {
        let mut out: Vec<char> = Vec::new();
        match self {
            CalcError::NameNotFound(name) => {
                format::push_str(&mut out, "ERROR: Name not found: \"");
                format::push_str(&mut out, name.as_str());
                format::push_str(&mut out, "\"");
            },
            CalcError::NameAlreadyBound(name) => {
                format::push_str(&mut out, "ERROR: Name already bound: \"");
                format::push_str(&mut out, name.as_str());
                format::push_str(&mut out, "\"");
            },
            CalcError::IncorrectArity(expected, found) => {
                format::push_str(&mut out, "ERROR: Expected ");
                format::push_count(&mut out, *expected);
                format::push_str(&mut out, " arguments, found ");
                format::push_count(&mut out, *found);
            },
            CalcError::ParseNum => format::push_str(&mut out, "ERROR: Number parsing error"),
            CalcError::ParseError => format::push_str(&mut out, "ERROR: Parsing error"),
            CalcError::IOError => format::push_str(&mut out, "ERROR: IO error"),
            CalcError::DepthExceeded => format::push_str(
                &mut out,
                "ERROR: Evaluation nested too deeply",
            ),
        }
        format::string_from_chars(&out)
    }
}

/// The view of a result whose success value has a view.
pub open spec fn result_view<T: View>(r: Result<T, CalcError>) -> Result<T::V, CalcErrorV> {
    match r {
        Ok(v) => Ok(v@),
        Err(e) => Err(e@),
    }
}

} // verus!
