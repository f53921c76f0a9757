//! [`RangeExt`] for byte ranges (`std::ops::Range<usize>`).

use std::ops::Range;

use vstd::prelude::*;

use super::{
    RangeExt, check_delimiter, check_text_length, delimiter_check, right_of, text_length_check,
};
use crate::error::RangeError;
use crate::text_utils::text_model::{
    char_width, find_byte_offset, first_index_of, lemma_first_index_of, lemma_take_all,
    lemma_utf8_len_split, lemma_utf8_len_take_monotone, locate_char, text_len, utf8_len,
};

verus! {

/// The byte range from `start` to `end`.
pub open spec fn byte_range(start: int, end: int) -> Range<usize> {
    Range { start: start as usize, end: end as usize }
}

/// What splitting a byte range around `delim` gives, once the text and the
/// delimiter have been checked.
pub open spec fn byte_delimited(r: Range<usize>, text: Seq<char>, delim: char) -> (
    Option<Range<usize>>,
    Option<Range<usize>>,
) {
    match find_byte_offset(text, delim) {
        Some(offset) => (
            if offset == 0 {
                None
            } else {
                Some(byte_range(r.start as int, r.start + offset))
            },
            if offset + 1 >= utf8_len(text) {
                None
            } else {
                Some(byte_range(r.start + offset + 1, r.end as int))
            },
        ),
        None => if text.len() > 0 {
            (Some(r), None)
        } else {
            (None, None)
        },
    }
}

impl RangeExt for Range<usize> {
    type Position = usize;

    open spec fn split_at_requires(self, text: Seq<char>, at: usize) -> bool {
        self.start <= self.end
    }

    open spec fn split_at_spec(self, text: Seq<char>, at: usize) -> Result<(Self, Self), RangeError> {
        if at > self.end - self.start {
            Err(RangeError::PositionOutOfRange)
        } else {
            Ok(
                (
                    byte_range(self.start as int, self.start + at),
                    byte_range(self.start + at, self.end as int),
                ),
            )
        }
    }

    open spec fn shrink_requires(self) -> bool {
        true
    }

    /// Byte ranges have no line concept, so shrinking cannot fail: each
    /// edge moves inwards by its amount, never past the other edge.
    open spec fn shrink_spec(self, amount_left: usize, amount_right: usize) -> Result<
        Self,
        RangeError,
    > {
        let moved_start = if self.start + amount_left > usize::MAX {
            usize::MAX as int
        } else {
            self.start + amount_left
        };
        let moved_end = if self.end - amount_right < 0 {
            0
        } else {
            self.end - amount_right
        };
        Ok(
            byte_range(
                if moved_start < self.end {
                    moved_start
                } else {
                    self.end as int
                },
                if moved_end > self.start {
                    moved_end
                } else {
                    self.start as int
                },
            ),
        )
    }

    open spec fn sub_requires(self, text: Seq<char>, from: usize, to: usize) -> bool {
        self.start <= self.end
    }

    open spec fn sub_spec(self, text: Seq<char>, from: usize, to: usize) -> Result<Self, RangeError> {
        if from > self.end - self.start || to > self.end - self.start {
            Err(RangeError::PositionOutOfRange)
        } else if from > to {
            Err(RangeError::StartAfterEnd)
        } else {
            Ok(byte_range(self.start + from, self.start + to))
        }
    }

    open spec fn sub_delimited_requires(self, text: Seq<char>, delimiter: char) -> bool {
        self.start <= self.end
    }

    open spec fn sub_delimited_spec(self, text: Seq<char>, delimiter: char) -> Result<
        (Option<Self>, Option<Self>),
        RangeError,
    > {
        match text_length_check(utf8_len(text) as usize, (self.end - self.start) as usize) {
            Err(e) => Err(e),
            Ok(()) => match delimiter_check(delimiter) {
                Err(e) => Err(e),
                Ok(()) => Ok(byte_delimited(self, text, delimiter)),
            },
        }
    }

    open spec fn sub_delimited_tri_requires(
        self,
        text: Seq<char>,
        delim0: char,
        delim1: char,
    ) -> bool {
        char_width(delim0) == 1 && char_width(delim1) == 1 && text.len() > 0 ==> self.start
            <= self.end
    }

    open spec fn sub_delimited_tri_spec(self, text: Seq<char>, delim0: char, delim1: char) -> Result<
        (Option<Self>, Option<Self>, Option<Self>),
        RangeError,
    > {
        match delimiter_check(delim0) {
            Err(e) => Err(e),
            Ok(()) => match delimiter_check(delim1) {
                Err(e) => Err(e),
                Ok(()) => if text.len() == 0 {
                    Ok((None, None, None))
                } else {
                    match text_length_check(
                        utf8_len(text) as usize,
                        (self.end - self.start) as usize,
                    ) {
                        Err(e) => Err(e),
                        Ok(()) => match first_index_of(text, delim0) {
                            None => Ok((Some(self), None, None)),
                            Some(k) => {
                                let (first, remainder) = byte_delimited(self, text, delim0);
                                match remainder {
                                    None => Ok((first, None, None)),
                                    Some(rest) => {
                                        let (second, third) = byte_delimited(
                                            rest,
                                            text.skip(k + 1 as int),
                                            delim1,
                                        );
                                        Ok((first, second, third))
                                    },
                                }
                            },
                        },
                    }
                },
            },
        }
    }

    fn split_at(self, _text: &str, at: usize) -> (r: Result<(Self, Self), RangeError>) {
        if at > self.end - self.start {
            return Err(RangeError::PositionOutOfRange);
        }
        Ok((self.start..(self.start + at), (self.start + at)..self.end))
    }

    fn shrink(self, amount_left: usize, amount_right: usize) -> (r: Result<Self, RangeError>) {
        let moved_start = self.start.saturating_add(amount_left);
        let new_start = if moved_start < self.end {
            moved_start
        } else {
            self.end
        };
        let moved_end = self.end.saturating_sub(amount_right);
        let new_end = if moved_end > self.start {
            moved_end
        } else {
            self.start
        };
        Ok(new_start..new_end)
    }

    fn sub(self, _text: &str, from: usize, to: usize) -> (r: Result<Self, RangeError>) {
        let len = self.end - self.start;
        if from > len || to > len {
            return Err(RangeError::PositionOutOfRange);
        }
        if from > to {
            return Err(RangeError::StartAfterEnd);
        }
        Ok((self.start + from)..(self.start + to))
    }

    fn sub_delimited(self, text: &str, delim: char) -> (r: Result<
        (Option<Self>, Option<Self>),
        RangeError,
    >) {
        let n = text_len(text);
        match check_text_length(n, self.end - self.start) {
            Err(e) => return Err(e),
            Ok(()) => {},
        }
        match check_delimiter(delim) {
            Err(e) => return Err(e),
            Ok(()) => {},
        }
        proof {
            lemma_first_index_of(text@, delim);
        }
        match locate_char(text, delim) {
            Some(location) => {
                let offset = location.byte_offset;
                proof {
                    let k = first_index_of(text@, delim)->0;
                    assert(location == crate::text_utils::text_model::location_at(text@, k));
                    lemma_utf8_len_take_monotone(text@, k as int + 1, text@.len() as int);
                    lemma_take_all(text@);
                    crate::text_utils::text_model::lemma_take_next(text@, k as int);
                    crate::text_utils::text_model::lemma_char_width_bounds(delim);
                }
                let left = if offset == 0 {
                    None
                } else {
                    Some(self.start..(self.start + offset))
                };
                let right = if offset + 1 >= n {
                    None
                } else {
                    Some((self.start + offset + 1)..self.end)
                };
                Ok((left, right))
            },
            None => {
                if text.is_empty() {
                    Ok((None, None))
                } else {
                    Ok((Some(self), None))
                }
            },
        }
    }

    fn sub_delimited_tri(self, text: &str, delim0: char, delim1: char) -> (r: Result<
        (Option<Self>, Option<Self>, Option<Self>),
        RangeError,
    >) {
        match check_delimiter(delim0) {
            Err(e) => return Err(e),
            Ok(()) => {},
        }
        match check_delimiter(delim1) {
            Err(e) => return Err(e),
            Ok(()) => {},
        }
        if text.is_empty() {
            return Ok((None, None, None));
        }
        let n = text_len(text);
        match check_text_length(n, self.end - self.start) {
            Err(e) => return Err(e),
            Ok(()) => {},
        }
        proof {
            lemma_first_index_of(text@, delim0);
        }
        let location = match locate_char(text, delim0) {
            Some(location) => location,
            None => return Ok((Some(self), None, None)),
        };
        let start = self.start;
        let end = self.end;
        let (first, remainder) = match (start..end).sub_delimited(text, delim0) {
            Ok(parts) => parts,
            Err(e) => return Err(e),
        };
        let remainder = match remainder {
            Some(remainder) => remainder,
            None => return Ok((first, None, None)),
        };
        let char_count = text.unicode_len();
        let remainder_text = text.substring_char(location.char_index + 1, char_count);
        proof {
            let k = location.char_index as int;
            lemma_utf8_len_split(text@, k + 1);
            crate::text_utils::text_model::lemma_take_next(text@, k);
            assert(remainder_text@ =~= text@.skip(k + 1));
        }
        match remainder.sub_delimited(remainder_text, delim1) {
            Ok((second, third)) => Ok((first, second, third)),
            Err(e) => Err(e),
        }
    }
}

} // verus!
