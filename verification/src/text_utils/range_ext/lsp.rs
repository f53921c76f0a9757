//! [`RangeExt`] for protocol ranges ([`LspRange`]).

use vstd::prelude::*;

use super::{RangeExt, check_delimiter, delimiter_check, left_of, right_of};
use crate::error::RangeError;
use crate::protocol::{LspPosition, LspRange, lsp_position_le, lsp_position_le_exec};
use crate::text_utils::text_model::{
    char_point_after, char_width, first_index_of, lemma_char_width_bounds, lemma_first_index_of,
    lemma_points_bounded, lemma_take_all, lemma_take_next, lemma_utf8_len_split,
    lemma_utf8_len_take_monotone, location_at, locate_char, text_len, utf8_len,
};

verus! {

/// `n` clamped to the `u32` range.
pub open spec fn saturate_u32(n: int) -> u32 {
    if n > u32::MAX {
        u32::MAX
    } else {
        n as u32
    }
}

/// The absolute position of `relative`, a position counted from `start`:
/// lines add up, and the character only adds up on the start's own line.
pub open spec fn lsp_absolute(start: LspPosition, relative: LspPosition) -> LspPosition {
    LspPosition {
        line: (start.line + relative.line) as u32,
        character: if relative.line == 0 {
            (start.character + relative.character) as u32
        } else {
            relative.character
        },
    }
}

/// `lsp_absolute` stays within `u32`.
pub open spec fn lsp_absolute_fits(start: LspPosition, relative: LspPosition) -> bool {
    &&& start.line + relative.line <= u32::MAX
    &&& relative.line == 0 ==> start.character + relative.character <= u32::MAX
}

/// Position of the character at index `k`, relative to the start of the
/// text, with the column counted in characters.
pub open spec fn lsp_delimiter_position(text: Seq<char>, k: nat) -> LspPosition {
    LspPosition {
        line: char_point_after(text.take(k as int)).0 as u32,
        character: saturate_u32(char_point_after(text.take(k as int)).1 as int),
    }
}

/// Position right after a delimiter found at `position`.
pub open spec fn lsp_after_delimiter(position: LspPosition, delimiter: char) -> LspPosition {
    if delimiter == '\n' {
        LspPosition { line: (position.line + 1) as u32, character: 0 }
    } else {
        LspPosition { line: position.line, character: (position.character + 1) as u32 }
    }
}

fn absolute(start: LspPosition, relative: LspPosition) -> (r: LspPosition)
    requires
        lsp_absolute_fits(start, relative),
    ensures
        r == lsp_absolute(start, relative),
{
    LspPosition {
        line: start.line + relative.line,
        character: if relative.line == 0 {
            start.character + relative.character
        } else {
            relative.character
        },
    }
}

/// Clamps a count to `u32`, as `u32::try_from(n).unwrap_or(u32::MAX)`.
pub fn saturating_u32(n: usize) -> (r: u32)
    ensures
        r == saturate_u32(n as int),
{
    if n > 0xffff_ffffusize {
        u32::MAX
    } else {
        n as u32
    }
}

impl RangeExt for LspRange {
    type Position = LspPosition;

    open spec fn split_at_requires(self, text: Seq<char>, at: LspPosition) -> bool {
        lsp_absolute_fits(self.start, at)
    }

    open spec fn split_at_spec(self, text: Seq<char>, at: LspPosition) -> Result<
        (Self, Self),
        RangeError,
    > {
        let at_absolute = lsp_absolute(self.start, at);
        if !(lsp_position_le(self.start, at_absolute) && lsp_position_le(at_absolute, self.end)) {
            Err(RangeError::PositionOutOfRange)
        } else {
            Ok(
                (
                    LspRange { start: self.start, end: at_absolute },
                    LspRange { start: at_absolute, end: self.end },
                ),
            )
        }
    }

    open spec fn shrink_requires(self) -> bool {
        true
    }

    open spec fn shrink_spec(self, amount_left: usize, amount_right: usize) -> Result<
        Self,
        RangeError,
    > {
        if self.start.line != self.end.line {
            Err(RangeError::NotSingleLine)
        } else {
            let moved_start = saturate_u32(self.start.character + saturate_u32(amount_left as int));
            let moved_end = self.end.character - saturate_u32(amount_right as int);
            let start_char = if moved_start < self.end.character {
                moved_start
            } else {
                self.end.character
            };
            let end_char = if moved_end > self.start.character {
                moved_end as u32
            } else {
                self.start.character
            };
            Ok(
                LspRange {
                    start: LspPosition { line: self.start.line, character: start_char },
                    end: LspPosition { line: self.end.line, character: end_char },
                },
            )
        }
    }

    open spec fn sub_requires(self, text: Seq<char>, from: LspPosition, to: LspPosition) -> bool {
        lsp_position_le(from, to) ==> lsp_absolute_fits(self.start, from) && lsp_absolute_fits(
            self.start,
            to,
        )
    }

    open spec fn sub_spec(self, text: Seq<char>, from: LspPosition, to: LspPosition) -> Result<
        Self,
        RangeError,
    > {
        if !lsp_position_le(from, to) {
            Err(RangeError::StartAfterEnd)
        } else {
            let from_absolute = lsp_absolute(self.start, from);
            let to_absolute = lsp_absolute(self.start, to);
            if !(lsp_position_le(self.start, from_absolute) && lsp_position_le(
                from_absolute,
                self.end,
            )) {
                Err(RangeError::PositionOutOfRange)
            } else if !(lsp_position_le(self.start, to_absolute) && lsp_position_le(
                to_absolute,
                self.end,
            )) {
                Err(RangeError::PositionOutOfRange)
            } else {
                Ok(LspRange { start: from_absolute, end: to_absolute })
            }
        }
    }

    open spec fn sub_delimited_requires(self, text: Seq<char>, delimiter: char) -> bool {
        char_width(delimiter) == 1 ==> match first_index_of(text, delimiter) {
            None => true,
            Some(k) => {
                let position = lsp_delimiter_position(text, k);
                &&& char_point_after(text.take(k as int)).0 <= u32::MAX
                &&& utf8_len(text.take(k as int)) != 0 ==> self.split_at_requires(text, position)
                &&& utf8_len(text.take(k as int)) + 1 < utf8_len(text) ==> {
                    &&& delimiter == '\n' ==> position.line < u32::MAX
                    &&& delimiter != '\n' ==> position.character < u32::MAX
                    &&& self.split_at_requires(text, lsp_after_delimiter(position, delimiter))
                }
            },
        }
    }

    open spec fn sub_delimited_spec(self, text: Seq<char>, delimiter: char) -> Result<
        (Option<Self>, Option<Self>),
        RangeError,
    > {
        match delimiter_check(delimiter) {
            Err(e) => Err(e),
            Ok(()) => if text.len() == 0 {
                Ok((None, None))
            } else {
                match first_index_of(text, delimiter) {
                    None => Ok((Some(self), None)),
                    Some(k) => {
                        let offset = utf8_len(text.take(k as int));
                        let position = lsp_delimiter_position(text, k);
                        let left: Result<Option<Self>, RangeError> = if offset == 0 {
                            Ok(None)
                        } else {
                            match left_of(self.split_at_spec(text, position)) {
                                Ok(left) => Ok(Some(left)),
                                Err(e) => Err(e),
                            }
                        };
                        match left {
                            Err(e) => Err(e),
                            Ok(left) => if offset + 1 >= utf8_len(text) {
                                Ok((left, None))
                            } else {
                                match right_of(
                                    self.split_at_spec(
                                        text,
                                        lsp_after_delimiter(position, delimiter),
                                    ),
                                ) {
                                    Ok(right) => Ok((left, Some(right))),
                                    Err(e) => Err(e),
                                }
                            },
                        }
                    },
                }
            },
        }
    }

    open spec fn sub_delimited_tri_requires(
        self,
        text: Seq<char>,
        delim0: char,
        delim1: char,
    ) -> bool {
        (char_width(delim0) == 1 && char_width(delim1) == 1) ==> match first_index_of(
            text,
            delim0,
        ) {
            None => true,
            Some(k) => {
                &&& self.sub_delimited_requires(text, delim0)
                &&& match self.sub_delimited_spec(text, delim0) {
                    Ok((_, Some(rest))) => rest.sub_delimited_requires(
                        text.skip(k + 1 as int),
                        delim1,
                    ),
                    _ => true,
                }
            },
        }
    }

    open spec fn sub_delimited_tri_spec(self, text: Seq<char>, delim0: char, delim1: char) -> Result<
        (Option<Self>, Option<Self>, Option<Self>),
        RangeError,
    > {
        match delimiter_check(delim0) {
            Err(e) => Err(e),
            Ok(()) => match delimiter_check(delim1) {
                Err(e) => Err(e),
                Ok(()) => if text.len() == 0 {
                    Ok((None, None, None))
                } else {
                    match first_index_of(text, delim0) {
                        None => Ok((Some(self), None, None)),
                        Some(k) => match self.sub_delimited_spec(text, delim0) {
                            Err(e) => Err(e),
                            Ok((first, None)) => Ok((first, None, None)),
                            Ok((first, Some(rest))) => match rest.sub_delimited_spec(
                                text.skip(k + 1 as int),
                                delim1,
                            ) {
                                Err(e) => Err(e),
                                Ok((second, third)) => Ok((first, second, third)),
                            },
                        },
                    }
                },
            },
        }
    }

    fn split_at(self, _text: &str, at: LspPosition) -> (r: Result<(Self, Self), RangeError>) {
        let at_absolute = absolute(self.start, at);
        if !(lsp_position_le_exec(self.start, at_absolute) && lsp_position_le_exec(
            at_absolute,
            self.end,
        )) {
            return Err(RangeError::PositionOutOfRange);
        }
        let left = LspRange { start: self.start, end: at_absolute };
        let right = LspRange { start: at_absolute, end: self.end };
        Ok((left, right))
    }

    fn shrink(self, amount_left: usize, amount_right: usize) -> (r: Result<Self, RangeError>) {
        if self.start.line != self.end.line {
            return Err(RangeError::NotSingleLine);
        }
        let moved_start = self.start.character.saturating_add(saturating_u32(amount_left));
        let start_char = if moved_start < self.end.character {
            moved_start
        } else {
            self.end.character
        };
        let moved_end = self.end.character.saturating_sub(saturating_u32(amount_right));
        let end_char = if moved_end > self.start.character {
            moved_end
        } else {
            self.start.character
        };
        Ok(
            LspRange {
                start: LspPosition { line: self.start.line, character: start_char },
                end: LspPosition { line: self.end.line, character: end_char },
            },
        )
    }

    fn sub(self, _text: &str, from: LspPosition, to: LspPosition) -> (r: Result<Self, RangeError>) {
        if !lsp_position_le_exec(from, to) {
            return Err(RangeError::StartAfterEnd);
        }
        let from_absolute = absolute(self.start, from);
        let to_absolute = absolute(self.start, to);
        if !(lsp_position_le_exec(self.start, from_absolute) && lsp_position_le_exec(
            from_absolute,
            self.end,
        )) {
            return Err(RangeError::PositionOutOfRange);
        }
        if !(lsp_position_le_exec(self.start, to_absolute) && lsp_position_le_exec(
            to_absolute,
            self.end,
        )) {
            return Err(RangeError::PositionOutOfRange);
        }
        Ok(LspRange { start: from_absolute, end: to_absolute })
    }

    fn sub_delimited(self, text: &str, delim: char) -> (r: Result<
        (Option<Self>, Option<Self>),
        RangeError,
    >) {
        match check_delimiter(delim) {
            Err(e) => return Err(e),
            Ok(()) => {},
        }
        if text.is_empty() {
            return Ok((None, None));
        }
        let n = text_len(text);
        proof {
            lemma_first_index_of(text@, delim);
        }
        match locate_char(text, delim) {
            None => Ok((Some(self), None)),
            Some(location) => {
                let ghost k = first_index_of(text@, delim)->0;
                proof {
                    assert(location == location_at(text@, k));
                    lemma_utf8_len_take_monotone(text@, k as int + 1, text@.len() as int);
                    lemma_take_all(text@);
                    lemma_take_next(text@, k as int);
                    lemma_char_width_bounds(delim);
                    lemma_points_bounded(text@.take(k as int));
                }
                let offset = location.byte_offset;
                let position = LspPosition {
                    line: location.line as u32,
                    character: saturating_u32(location.char_column),
                };
                let left = if offset == 0 {
                    None
                } else {
                    match self.split_off_left(text, position) {
                        Ok(left) => Some(left),
                        Err(e) => return Err(e),
                    }
                };
                let right = if offset + 1 >= n {
                    None
                } else {
                    let after = if delim == '\n' {
                        LspPosition { line: position.line + 1, character: 0 }
                    } else {
                        LspPosition { line: position.line, character: position.character + 1 }
                    };
                    match self.split_off_right(text, after) {
                        Ok(right) => Some(right),
                        Err(e) => return Err(e),
                    }
                };
                Ok((left, right))
            },
        }
    }

    fn sub_delimited_tri(self, text: &str, delim0: char, delim1: char) -> (r: Result<
        (Option<Self>, Option<Self>, Option<Self>),
        RangeError,
    >) {
        match check_delimiter(delim0) {
            Err(e) => return Err(e),
            Ok(()) => {},
        }
        match check_delimiter(delim1) {
            Err(e) => return Err(e),
            Ok(()) => {},
        }
        if text.is_empty() {
            return Ok((None, None, None));
        }
        proof {
            lemma_first_index_of(text@, delim0);
        }
        let location = match locate_char(text, delim0) {
            Some(location) => location,
            None => return Ok((Some(self), None, None)),
        };
        let (first, remainder) = match self.sub_delimited(text, delim0) {
            Ok(parts) => parts,
            Err(e) => return Err(e),
        };
        let remainder = match remainder {
            Some(remainder) => remainder,
            None => return Ok((first, None, None)),
        };
        let char_count = text.unicode_len();
        let remainder_text = text.substring_char(location.char_index + 1, char_count);
        proof {
            let k = first_index_of(text@, delim0)->0;
            assert(location == location_at(text@, k));
            assert(remainder_text@ =~= text@.skip(k + 1 as int));
        }
        match remainder.sub_delimited(remainder_text, delim1) {
            Ok((second, third)) => Ok((first, second, third)),
            Err(e) => Err(e),
        }
    }
}

} // verus!
