//! How a parse fails: what went wrong and where.

use vstd::prelude::*;

verus! {

/// What was wrong with the text at the point where parsing stopped.
#[derive(Debug, Clone, Copy, PartialEq, Eq, Structural)]
pub enum CrontabErrorKind {
    /// A number was written that the field's bounds do not admit.
    OutOfBounds,
    /// A range whose left end is not strictly below its right end.
    InvalidRangeOrder,
    /// The single space that must follow each of the first four fields is
    /// not there.
    MalformedSeparator,
    /// The text where an atom must start is neither a number nor a wildcard,
    /// or a number is not followed by the `-` that a range needs.
    UnparseableAtom,
}

/// A failed parse: the kind of fault and the input from the point of failure on.
#[derive(Debug, Clone, Copy, PartialEq, Eq)]
pub struct CrontabError<'a> {
    pub kind: CrontabErrorKind,
    pub remaining: &'a str,
}

/// The mathematical content of a [`CrontabError`].
pub struct Failure {
    pub kind: CrontabErrorKind,
    pub remaining: Seq<char>,
}

impl<'a> View for CrontabError<'a> {
    type V = Failure;

    open spec fn view(&self) -> Failure {
        Failure { kind: self.kind, remaining: self.remaining@ }
    }
}

} // verus!
