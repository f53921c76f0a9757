//! Splitting, shrinking and delimiting of byte, LSP and tree-sitter ranges.

use vstd::prelude::*;

use crate::error::RangeError;
use crate::text_utils::text_model::{char_len_utf8, char_width};

pub mod bytes;
pub mod laws;
pub mod lsp;
pub mod tree_sitter;

verus! {

/// Accepts a delimiter only when it is encoded with a single UTF-8 byte.
pub open spec fn delimiter_check(delimiter: char) -> Result<(), RangeError> {
    if char_width(delimiter) == 1 {
        Ok(())
    } else {
        Err(RangeError::DelimiterNotSingleByte { delimiter })
    }
}

/// Accepts a text only when its byte length equals the range's length.
pub open spec fn text_length_check(text_len: usize, range_len: usize) -> Result<(), RangeError> {
    if text_len == range_len {
        Ok(())
    } else {
        Err(RangeError::TextRangeMismatch { text_len, range_len })
    }
}

pub fn check_delimiter(delimiter: char) -> (r: Result<(), RangeError>)
    ensures
        r == delimiter_check(delimiter),
{
    if char_len_utf8(delimiter) == 1 {
        Ok(())
    } else {
        Err(RangeError::DelimiterNotSingleByte { delimiter })
    }
}

pub fn check_text_length(text_len: usize, range_len: usize) -> (r: Result<(), RangeError>)
    ensures
        r == text_length_check(text_len, range_len),
{
    if text_len == range_len {
        Ok(())
    } else {
        Err(RangeError::TextRangeMismatch { text_len, range_len })
    }
}

/// The left part of a split, with the split's error.
pub open spec fn left_of<T>(r: Result<(T, T), RangeError>) -> Result<T, RangeError> {
    match r {
        Ok(parts) => Ok(parts.0),
        Err(e) => Err(e),
    }
}

/// The right part of a split, with the split's error.
pub open spec fn right_of<T>(r: Result<(T, T), RangeError>) -> Result<T, RangeError> {
    match r {
        Ok(parts) => Ok(parts.1),
        Err(e) => Err(e),
    }
}

/// Extensions for splitting, shrinking, and delimiting ranges of three
/// kinds: byte ranges, LSP protocol ranges and tree-sitter ranges.
///
/// Each kind states what every operation returns through the spec
/// functions of this trait; its preconditions only exclude inputs on which
/// the arithmetic of the operation would overflow.
pub trait RangeExt: Sized {
    /// The position type used by this kind of range.
    type Position;

    /// The inputs on which `split_at` is defined.
    spec fn split_at_requires(self, text: Seq<char>, at: Self::Position) -> bool;

    /// What `split_at` returns.
    spec fn split_at_spec(self, text: Seq<char>, at: Self::Position) -> Result<
        (Self, Self),
        RangeError,
    >;

    /// The inputs on which `shrink` is defined.
    spec fn shrink_requires(self) -> bool;

    /// What `shrink` returns.
    spec fn shrink_spec(self, amount_left: usize, amount_right: usize) -> Result<Self, RangeError>;

    /// The inputs on which `sub` is defined.
    spec fn sub_requires(self, text: Seq<char>, from: Self::Position, to: Self::Position) -> bool;

    /// What `sub` returns.
    spec fn sub_spec(self, text: Seq<char>, from: Self::Position, to: Self::Position) -> Result<
        Self,
        RangeError,
    >;

    /// The inputs on which `sub_delimited` is defined.
    spec fn sub_delimited_requires(self, text: Seq<char>, delimiter: char) -> bool;

    /// What `sub_delimited` returns.
    spec fn sub_delimited_spec(self, text: Seq<char>, delimiter: char) -> Result<
        (Option<Self>, Option<Self>),
        RangeError,
    >;

    /// The inputs on which `sub_delimited_tri` is defined.
    spec fn sub_delimited_tri_requires(
        self,
        text: Seq<char>,
        delim0: char,
        delim1: char,
    ) -> bool;

    /// What `sub_delimited_tri` returns.
    spec fn sub_delimited_tri_spec(self, text: Seq<char>, delim0: char, delim1: char) -> Result<
        (Option<Self>, Option<Self>, Option<Self>),
        RangeError,
    >;

    /// Splits the range into two parts at `at`, a position relative to the
    /// start of the range. `text` must be the exact text of the range.
    fn split_at(self, text: &str, at: Self::Position) -> (r: Result<(Self, Self), RangeError>)
        requires
            self.split_at_requires(text@, at),
        ensures
            r == self.split_at_spec(text@, at),
    ;

    /// The left part of [`RangeExt::split_at`].
    fn split_off_left(self, text: &str, at: Self::Position) -> (r: Result<Self, RangeError>)
        requires
            self.split_at_requires(text@, at),
        ensures
            r == left_of(self.split_at_spec(text@, at)),
    {
        match self.split_at(text, at) {
            Ok(parts) => Ok(parts.0),
            Err(e) => Err(e),
        }
    }

    /// The right part of [`RangeExt::split_at`].
    fn split_off_right(self, text: &str, at: Self::Position) -> (r: Result<Self, RangeError>)
        requires
            self.split_at_requires(text@, at),
        ensures
            r == right_of(self.split_at_spec(text@, at)),
    {
        match self.split_at(text, at) {
            Ok(parts) => Ok(parts.1),
            Err(e) => Err(e),
        }
    }

    /// Shrinks a same-line range by the given counts on the left and right.
    fn shrink(self, amount_left: usize, amount_right: usize) -> (r: Result<Self, RangeError>)
        requires
            self.shrink_requires(),
        ensures
            r == self.shrink_spec(amount_left, amount_right),
    ;

    /// The subrange from `from` to `to`, both relative to the range start.
    fn sub(self, text: &str, from: Self::Position, to: Self::Position) -> (r: Result<
        Self,
        RangeError,
    >)
        requires
            self.sub_requires(text@, from, to),
        ensures
            r == self.sub_spec(text@, from, to),
    ;

    /// Splits the range around the first occurrence of `delimiter`.
    fn sub_delimited(self, text: &str, delimiter: char) -> (r: Result<
        (Option<Self>, Option<Self>),
        RangeError,
    >)
        requires
            self.sub_delimited_requires(text@, delimiter),
        ensures
            r == self.sub_delimited_spec(text@, delimiter),
    ;

    /// Splits the range in three around `delim0` and then `delim1`.
    fn sub_delimited_tri(self, text: &str, delim0: char, delim1: char) -> (r: Result<
        (Option<Self>, Option<Self>, Option<Self>),
        RangeError,
    >)
        requires
            self.sub_delimited_tri_requires(text@, delim0, delim1),
        ensures
            r == self.sub_delimited_tri_spec(text@, delim0, delim1),
    ;
}

} // verus!
