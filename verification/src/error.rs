//! The single error type that every statement evaluation reports.

use vstd::prelude::*;

verus! {

/// Everything that can go wrong while evaluating a statement.
///
/// - `IOError`: a directory could not be read or metadata was missing at
///   load time; the payload is the underlying message.
/// - `ParserError`: an opaque message propagated from the SQL parser; this
///   crate only carries it, it never constructs one from a query.
/// - `CsvError`: a failure reported by the CSV sink.
/// - `GeneralError`: a semantic failure: an unknown column name, an
///   unsupported statement or expression shape, or incompatible operand
///   types for an operator.
/// - `UnknownError`: a catch-all carrying a file name and a position.
#[derive(Debug, Clone)]
pub enum CoreError {
    IOError(String),
    ParserError(String),
    CsvError(String),
    GeneralError(String),
    UnknownError(String, u32, u32),
}

impl CoreError {
    /// The human-readable message carried by the error.
    pub fn message(&self) -> (r: String)
        ensures
            r@ == self.message_spec(),
    {
        match self {
            CoreError::IOError(s) => s.clone(),
            CoreError::ParserError(s) => s.clone(),
            CoreError::CsvError(s) => s.clone(),
            CoreError::GeneralError(s) => s.clone(),
            CoreError::UnknownError(s, _, _) => s.clone(),
        }
    }

    /// The message as a sequence of characters.
    pub open spec fn message_spec(&self) -> Seq<char> {
        match self {
            CoreError::IOError(s) => s@,
            CoreError::ParserError(s) => s@,
            CoreError::CsvError(s) => s@,
            CoreError::GeneralError(s) => s@,
            CoreError::UnknownError(s, _, _) => s@,
        }
    }

    /// The mathematical value of the error: variant and message text.
    pub open spec fn view_err(self) -> CoreErrorV {
        match self {
            CoreError::IOError(s) => CoreErrorV::IOError(s@),
            CoreError::ParserError(s) => CoreErrorV::ParserError(s@),
            CoreError::CsvError(s) => CoreErrorV::CsvError(s@),
            CoreError::GeneralError(s) => CoreErrorV::GeneralError(s@),
            CoreError::UnknownError(s, l, c) => CoreErrorV::UnknownError(s@, l, c),
        }
    }
}

/// The mathematical value of a `CoreError`: the same variants over
/// character sequences.
pub enum CoreErrorV {
    IOError(Seq<char>),
    ParserError(Seq<char>),
    CsvError(Seq<char>),
    GeneralError(Seq<char>),
    UnknownError(Seq<char>, u32, u32),
}

} // verus!
