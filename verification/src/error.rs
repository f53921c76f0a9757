//! Error types of the library.

use vstd::prelude::*;

verus! {

/// An error raised by the range helpers of [`crate::text_utils::RangeExt`].
#[derive(Debug, Clone, Copy, PartialEq, Eq, Structural)]
pub enum RangeError {
    /// A position lies outside the range, or (for tree-sitter ranges) does
    /// not land on a character boundary of the text.
    PositionOutOfRange,
    /// The start of a requested subrange lies after its end.
    StartAfterEnd,
    /// The range spans more than one line.
    NotSingleLine,
    /// A delimiter is encoded with more than one UTF-8 byte.
    DelimiterNotSingleByte { delimiter: char },
    /// The text is not the exact text of the range.
    TextRangeMismatch { text_len: usize, range_len: usize },
}

} // verus!
