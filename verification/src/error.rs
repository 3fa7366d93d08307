use vstd::prelude::*;

verus! {

/// Errors reported while reading Erwin source text.
#[derive(Debug, Clone, Copy, PartialEq, Eq)]
pub enum Error {
    /// An error without a position in the source.
    Custom(&'static str),
    /// A character that starts no token.
    UnexpectedChar(char),
    /// An error at a line and column of the source.
    Located { line: usize, col: usize, message: &'static str },
}

} // verus!
