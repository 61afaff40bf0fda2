//! The error taxonomy: parse errors raised by the grammar recognizers,
//! conversion errors raised by the narrowing helpers, and the datetime
//! validation error.
use vstd::prelude::*;

verus! {

/// A parse error: the grammar expectation that failed, and where.
///
/// Every recognizer reports its failure through this type; a failed parse
/// aborts the whole document and yields no partial tree.
#[derive(Debug)]
pub struct ParseError {
    /// Character offset into the input at which the expectation failed.
    pub offset: usize,
    /// A human-readable description of what was expected at that position.
    pub expected: &'static str,
}

impl ParseError {
    /// Create a parse error for the given position and expectation label.
    pub fn new(offset: usize, expected: &'static str) -> (r: ParseError)
        ensures
            r.offset == offset,
            r.expected == expected,
    {
        ParseError { offset, expected }
    }

    /// The character offset at which the parse failed.
    pub fn offset(&self) -> (r: usize)
        ensures
            r == self.offset,
    {
        self.offset
    }

    /// The grammar expectation that failed.
    pub fn expected(&self) -> (r: &'static str)
        ensures
            r == self.expected,
    {
        self.expected
    }
}

/// The error type of this library.
#[derive(Debug)]
pub enum Error {
    /// An error occurred while parsing the TOML document.
    Parse(ParseError),
    /// Type conversion error, raised only by the narrowing-conversion
    /// helpers, never by the parser.
    Convert {
        /// The type from which the conversion was attempted.
        from: &'static str,
        /// The type to which the conversion was attempted.
        to: &'static str,
    },
    /// Invalid date and time encoding.
    Datetime,
}

impl Error {
    /// Whether this is a parse error.
    pub fn is_parse(&self) -> (r: bool)
        ensures
            r == (self matches Error::Parse(_)),
    {
        match self {
            Error::Parse(_) => true,
            _ => false,
        }
    }

    /// Whether this is the datetime validation error.
    pub fn is_datetime(&self) -> (r: bool)
        ensures
            r == (self matches Error::Datetime),
    {
        match self {
            Error::Datetime => true,
            _ => false,
        }
    }

    /// Whether this is a conversion error.
    pub fn is_convert(&self) -> (r: bool)
        ensures
            r == (self matches Error::Convert { .. }),
    {
        match self {
            Error::Convert { .. } => true,
            _ => false,
        }
    }
}

} // verus!
