//! The error taxonomy of the parser.

use vstd::prelude::*;

verus! {

/// What went wrong during a parse.
#[derive(Clone, Copy, Debug, PartialEq, Eq, Structural)]
pub enum ParseErrorKind {
    /// A timestamp that does not name a real date-time. By design this never
    /// aborts a parse: the normalizer degrades to the sentinel epoch 0 and the
    /// record continues. The variant documents the taxonomy; callers that need
    /// strict timestamp validation must check for the sentinel explicitly.
    MalformedTimestamp,
    /// An expected literal token (`[`, `#`, `]`, `:`, `.`, or an inter-field
    /// whitespace run) is not at the position where the grammar demands it.
    MissingDelimiter,
    /// A digit run is empty where one is required, or a port overflows `u32`.
    InvalidNumber,
    /// The input ended inside a variable-width token.
    UnexpectedEndOfInput,
    /// The payload prefix is neither `D:` nor `R:`.
    UnknownPayloadTag,
}

/// A failed parse: the kind of failure and the position (in characters from
/// the start of the input) at which the parser stopped. The whole record is
/// dropped; no partially built record is ever exposed.
#[derive(Clone, Copy, Debug, PartialEq, Eq)]
pub struct ParseError {
    pub kind: ParseErrorKind,
    pub offset: usize,
}

/// The mathematical value of a [`ParseError`].
pub ghost struct ErrorModel {
    pub kind: ParseErrorKind,
    pub offset: int,
}

impl View for ParseError {
    type V = ErrorModel;

    open spec fn view(&self) -> ErrorModel {
        ErrorModel { kind: self.kind, offset: self.offset as int }
    }
}

} // verus!
