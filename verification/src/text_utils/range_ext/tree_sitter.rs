//! [`RangeExt`] for tree-sitter ranges ([`TsRange`]).

use vstd::prelude::*;

use super::{RangeExt, check_delimiter, check_text_length, delimiter_check, text_length_check};
use crate::error::RangeError;
use crate::syntax::{TsPoint, TsRange, ts_point_le, ts_point_le_exec};
use crate::text_utils::text_model::{
    byte_point_after, char_width, first_index_of, lemma_char_width_bounds, lemma_first_index_of,
    lemma_points_bounded, lemma_take_all, lemma_take_next, lemma_utf8_len_split,
    lemma_utf8_len_take_monotone, location_at, locate_char, locate_point, point_byte_offset,
    text_len, utf8_len,
};

verus! {

/// The absolute point of `relative`, a point counted from `start`: rows add
/// up, and the column only adds up on the start's own row.
pub open spec fn ts_absolute(start: TsPoint, relative: TsPoint) -> TsPoint {
    TsPoint {
        row: (start.row + relative.row) as usize,
        column: if relative.row == 0 {
            (start.column + relative.column) as usize
        } else {
            relative.column
        },
    }
}

/// `ts_absolute` stays within `usize`.
pub open spec fn ts_absolute_fits(start: TsPoint, relative: TsPoint) -> bool {
    &&& start.row + relative.row <= usize::MAX
    &&& relative.row == 0 ==> start.column + relative.column <= usize::MAX
}

/// Byte offset within `text` at which the walk first reaches `point`.
pub open spec fn ts_offset_of(text: Seq<char>, point: TsPoint) -> Option<nat> {
    point_byte_offset(text, (point.row as nat, point.column as nat))
}

/// Point of the character at index `k`, relative to the start of the text.
pub open spec fn ts_relative_point(text: Seq<char>, k: nat) -> TsPoint {
    TsPoint {
        row: byte_point_after(text.take(k as int)).0 as usize,
        column: byte_point_after(text.take(k as int)).1 as usize,
    }
}

/// Point right after a delimiter found at `point`.
pub open spec fn ts_after_delimiter(point: TsPoint, delimiter: char) -> TsPoint {
    if delimiter == '\n' {
        TsPoint { row: (point.row + 1) as usize, column: 0 }
    } else {
        TsPoint { row: point.row, column: (point.column + 1) as usize }
    }
}

/// What splitting a tree-sitter range around `delim` gives, once the text
/// and the delimiter have been checked.
pub open spec fn ts_delimited(r: TsRange, text: Seq<char>, delim: char) -> (
    Option<TsRange>,
    Option<TsRange>,
) {
    match first_index_of(text, delim) {
        Some(k) => {
            let offset = utf8_len(text.take(k as int));
            let delim_point = ts_absolute(r.start_point, ts_relative_point(text, k));
            let delim_byte = (r.start_byte + offset) as usize;
            (
                if offset == 0 {
                    None
                } else {
                    Some(
                        TsRange {
                            start_byte: r.start_byte,
                            end_byte: delim_byte,
                            start_point: r.start_point,
                            end_point: delim_point,
                        },
                    )
                },
                if offset + 1 >= utf8_len(text) {
                    None
                } else {
                    Some(
                        TsRange {
                            start_byte: (delim_byte + 1) as usize,
                            end_byte: r.end_byte,
                            start_point: ts_after_delimiter(delim_point, delim),
                            end_point: r.end_point,
                        },
                    )
                },
            )
        },
        None => if text.len() > 0 {
            (Some(r), None)
        } else {
            (None, None)
        },
    }
}

/// `ts_delimited` stays within `usize`.
pub open spec fn ts_delimited_fits(r: TsRange, text: Seq<char>, delim: char) -> bool {
    match first_index_of(text, delim) {
        None => true,
        Some(k) => {
            let relative = ts_relative_point(text, k);
            let delim_point = ts_absolute(r.start_point, relative);
            &&& ts_absolute_fits(r.start_point, relative)
            &&& utf8_len(text.take(k as int)) + 1 < utf8_len(text) ==> {
                &&& delim == '\n' ==> delim_point.row < usize::MAX
                &&& delim != '\n' ==> delim_point.column < usize::MAX
            }
        },
    }
}

fn absolute(start: TsPoint, relative: TsPoint) -> (r: TsPoint)
    requires
        ts_absolute_fits(start, relative),
    ensures
        r == ts_absolute(start, relative),
{
    TsPoint {
        row: start.row + relative.row,
        column: if relative.row == 0 {
            start.column + relative.column
        } else {
            relative.column
        },
    }
}

impl RangeExt for TsRange {
    type Position = TsPoint;

    open spec fn split_at_requires(self, text: Seq<char>, at: TsPoint) -> bool {
        &&& self.start_byte <= self.end_byte
        &&& utf8_len(text) == self.end_byte - self.start_byte ==> ts_absolute_fits(
            self.start_point,
            at,
        )
    }

    open spec fn split_at_spec(self, text: Seq<char>, at: TsPoint) -> Result<(Self, Self), RangeError> {
        match text_length_check(utf8_len(text) as usize, (self.end_byte - self.start_byte) as usize) {
            Err(e) => Err(e),
            Ok(()) => {
                let at_absolute = ts_absolute(self.start_point, at);
                match ts_offset_of(text, at) {
                    None => Err(RangeError::PositionOutOfRange),
                    Some(offset) => {
                        let at_byte = (self.start_byte + offset) as usize;
                        Ok(
                            (
                                TsRange {
                                    start_byte: self.start_byte,
                                    end_byte: at_byte,
                                    start_point: self.start_point,
                                    end_point: at_absolute,
                                },
                                TsRange {
                                    start_byte: at_byte,
                                    end_byte: self.end_byte,
                                    start_point: at_absolute,
                                    end_point: self.end_point,
                                },
                            ),
                        )
                    },
                }
            },
        }
    }

    open spec fn shrink_requires(self) -> bool {
        true
    }

    open spec fn shrink_spec(self, amount_left: usize, amount_right: usize) -> Result<
        Self,
        RangeError,
    > {
        if self.start_point.row != self.end_point.row {
            Err(RangeError::NotSingleLine)
        } else {
            Ok(
                TsRange {
                    start_byte: shrunk_start(self.start_byte, self.end_byte, amount_left),
                    end_byte: shrunk_end(self.start_byte, self.end_byte, amount_right),
                    start_point: TsPoint {
                        row: self.start_point.row,
                        column: shrunk_start(
                            self.start_point.column,
                            self.end_point.column,
                            amount_left,
                        ),
                    },
                    end_point: TsPoint {
                        row: self.end_point.row,
                        column: shrunk_end(
                            self.start_point.column,
                            self.end_point.column,
                            amount_right,
                        ),
                    },
                },
            )
        }
    }

    open spec fn sub_requires(self, text: Seq<char>, from: TsPoint, to: TsPoint) -> bool {
        ts_point_le(from, to) ==> {
            &&& self.start_byte <= self.end_byte
            &&& utf8_len(text) == self.end_byte - self.start_byte ==> ts_absolute_fits(
                self.start_point,
                from,
            ) && ts_absolute_fits(self.start_point, to)
        }
    }

    open spec fn sub_spec(self, text: Seq<char>, from: TsPoint, to: TsPoint) -> Result<
        Self,
        RangeError,
    > {
        if !ts_point_le(from, to) {
            Err(RangeError::StartAfterEnd)
        } else {
            match text_length_check(
                utf8_len(text) as usize,
                (self.end_byte - self.start_byte) as usize,
            ) {
                Err(e) => Err(e),
                Ok(()) => match ts_offset_of(text, from) {
                    None => Err(RangeError::PositionOutOfRange),
                    Some(from_offset) => match ts_offset_of(text, to) {
                        None => Err(RangeError::PositionOutOfRange),
                        Some(to_offset) => Ok(
                            TsRange {
                                start_byte: (self.start_byte + from_offset) as usize,
                                end_byte: (self.start_byte + to_offset) as usize,
                                start_point: ts_absolute(self.start_point, from),
                                end_point: ts_absolute(self.start_point, to),
                            },
                        ),
                    },
                },
            }
        }
    }

    open spec fn sub_delimited_requires(self, text: Seq<char>, delimiter: char) -> bool {
        &&& self.start_byte <= self.end_byte
        &&& (utf8_len(text) == self.end_byte - self.start_byte && char_width(delimiter) == 1)
            ==> ts_delimited_fits(self, text, delimiter)
    }

    open spec fn sub_delimited_spec(self, text: Seq<char>, delimiter: char) -> Result<
        (Option<Self>, Option<Self>),
        RangeError,
    > {
        match text_length_check(utf8_len(text) as usize, (self.end_byte - self.start_byte) as usize) {
            Err(e) => Err(e),
            Ok(()) => match delimiter_check(delimiter) {
                Err(e) => Err(e),
                Ok(()) => Ok(ts_delimited(self, text, delimiter)),
            },
        }
    }

    open spec fn sub_delimited_tri_requires(
        self,
        text: Seq<char>,
        delim0: char,
        delim1: char,
    ) -> bool {
        &&& char_width(delim0) == 1 && char_width(delim1) == 1 && text.len() > 0 ==> self.start_byte
            <= self.end_byte
        &&& (char_width(delim0) == 1 && char_width(delim1) == 1 && utf8_len(text)
            == self.end_byte - self.start_byte) ==> {
            &&& ts_delimited_fits(self, text, delim0)
            &&& match (ts_delimited(self, text, delim0).1, first_index_of(text, delim0)) {
                (Some(rest), Some(k)) => ts_delimited_fits(
                    rest,
                    text.skip(k + 1 as int),
                    delim1,
                ),
                _ => true,
            }
        }
    }

    open spec fn sub_delimited_tri_spec(self, text: Seq<char>, delim0: char, delim1: char) -> Result<
        (Option<Self>, Option<Self>, Option<Self>),
        RangeError,
    > {
        match delimiter_check(delim0) {
            Err(e) => Err(e),
            Ok(()) => match delimiter_check(delim1) {
                Err(e) => Err(e),
                Ok(()) => if text.len() == 0 {
                    Ok((None, None, None))
                } else {
                    match text_length_check(
                        utf8_len(text) as usize,
                        (self.end_byte - self.start_byte) as usize,
                    ) {
                        Err(e) => Err(e),
                        Ok(()) => {
                            let (first, remainder) = ts_delimited(self, text, delim0);
                            match (remainder, first_index_of(text, delim0)) {
                                (Some(rest), Some(k)) => {
                                    let (second, third) = ts_delimited(
                                        rest,
                                        text.skip(k + 1 as int),
                                        delim1,
                                    );
                                    Ok((first, second, third))
                                },
                                _ => Ok((first, None, None)),
                            }
                        },
                    }
                },
            },
        }
    }

    fn split_at(self, text: &str, at: TsPoint) -> (r: Result<(Self, Self), RangeError>) {
        match check_text_length(text_len(text), self.end_byte - self.start_byte) {
            Err(e) => return Err(e),
            Ok(()) => {},
        }
        let at_absolute = absolute(self.start_point, at);
        let at_offset = match locate_point(text, at.row, at.column) {
            Some(offset) => offset,
            None => return Err(RangeError::PositionOutOfRange),
        };
        let at_byte = self.start_byte + at_offset;
        let left = TsRange {
            start_byte: self.start_byte,
            end_byte: at_byte,
            start_point: self.start_point,
            end_point: at_absolute,
        };
        let right = TsRange {
            start_byte: at_byte,
            end_byte: self.end_byte,
            start_point: at_absolute,
            end_point: self.end_point,
        };
        Ok((left, right))
    }

    fn shrink(self, amount_left: usize, amount_right: usize) -> (r: Result<Self, RangeError>) {
        if self.start_point.row != self.end_point.row {
            return Err(RangeError::NotSingleLine);
        }
        let start_col = shrink_start(self.start_point.column, self.end_point.column, amount_left);
        let end_col = shrink_end(self.start_point.column, self.end_point.column, amount_right);
        let start_byte = shrink_start(self.start_byte, self.end_byte, amount_left);
        let end_byte = shrink_end(self.start_byte, self.end_byte, amount_right);
        Ok(
            TsRange {
                start_byte,
                end_byte,
                start_point: TsPoint { row: self.start_point.row, column: start_col },
                end_point: TsPoint { row: self.end_point.row, column: end_col },
            },
        )
    }

    fn sub(self, text: &str, from: TsPoint, to: TsPoint) -> (r: Result<Self, RangeError>) {
        if !ts_point_le_exec(from, to) {
            return Err(RangeError::StartAfterEnd);
        }
        match check_text_length(text_len(text), self.end_byte - self.start_byte) {
            Err(e) => return Err(e),
            Ok(()) => {},
        }
        let from_absolute = absolute(self.start_point, from);
        let to_absolute = absolute(self.start_point, to);
        let from_offset = match locate_point(text, from.row, from.column) {
            Some(offset) => offset,
            None => return Err(RangeError::PositionOutOfRange),
        };
        let to_offset = match locate_point(text, to.row, to.column) {
            Some(offset) => offset,
            None => return Err(RangeError::PositionOutOfRange),
        };
        Ok(
            TsRange {
                start_byte: self.start_byte + from_offset,
                end_byte: self.start_byte + to_offset,
                start_point: from_absolute,
                end_point: to_absolute,
            },
        )
    }

    fn sub_delimited(self, text: &str, delim: char) -> (r: Result<
        (Option<Self>, Option<Self>),
        RangeError,
    >) {
        let n = text_len(text);
        match check_text_length(n, self.end_byte - self.start_byte) {
            Err(e) => return Err(e),
            Ok(()) => {},
        }
        match check_delimiter(delim) {
            Err(e) => return Err(e),
            Ok(()) => {},
        }
        proof {
            lemma_first_index_of(text@, delim);
        }
        match locate_char(text, delim) {
            None => {
                if text.is_empty() {
                    Ok((None, None))
                } else {
                    Ok((Some(self), None))
                }
            },
            Some(location) => {
                let ghost k = first_index_of(text@, delim)->0;
                proof {
                    assert(location == location_at(text@, k));
                    lemma_utf8_len_take_monotone(text@, k as int + 1, text@.len() as int);
                    lemma_take_all(text@);
                    lemma_take_next(text@, k as int);
                    lemma_char_width_bounds(delim);
                    lemma_points_bounded(text@.take(k as int));
                }
                let offset = location.byte_offset;
                let relative = TsPoint { row: location.line, column: location.byte_column };
                let delim_point = absolute(self.start_point, relative);
                let delim_byte = self.start_byte + offset;
                let left = if offset == 0 {
                    None
                } else {
                    Some(
                        TsRange {
                            start_byte: self.start_byte,
                            end_byte: delim_byte,
                            start_point: self.start_point,
                            end_point: delim_point,
                        },
                    )
                };
                let right = if offset + 1 >= n {
                    None
                } else {
                    let after = if delim == '\n' {
                        TsPoint { row: delim_point.row + 1, column: 0 }
                    } else {
                        TsPoint { row: delim_point.row, column: delim_point.column + 1 }
                    };
                    Some(
                        TsRange {
                            start_byte: delim_byte + 1,
                            end_byte: self.end_byte,
                            start_point: after,
                            end_point: self.end_point,
                        },
                    )
                };
                Ok((left, right))
            },
        }
    }

    fn sub_delimited_tri(self, text: &str, delim0: char, delim1: char) -> (r: Result<
        (Option<Self>, Option<Self>, Option<Self>),
        RangeError,
    >) {
        match check_delimiter(delim0) {
            Err(e) => return Err(e),
            Ok(()) => {},
        }
        match check_delimiter(delim1) {
            Err(e) => return Err(e),
            Ok(()) => {},
        }
        if text.is_empty() {
            return Ok((None, None, None));
        }
        let n = text_len(text);
        match check_text_length(n, self.end_byte - self.start_byte) {
            Err(e) => return Err(e),
            Ok(()) => {},
        }
        let (first, remainder) = match self.sub_delimited(text, delim0) {
            Ok(parts) => parts,
            Err(e) => return Err(e),
        };
        match remainder {
            None => Ok((first, None, None)),
            Some(remainder) => {
                proof {
                    lemma_first_index_of(text@, delim0);
                }
                let remainder_start = remainder.start_byte - self.start_byte;
                let char_count = text.unicode_len();
                let location = match locate_char(text, delim0) {
                    Some(location) => location,
                    None => return Ok((first, None, None)),
                };
                let remainder_text = text.substring_char(location.char_index + 1, char_count);
                proof {
                    let k = first_index_of(text@, delim0)->0;
                    assert(location == location_at(text@, k));
                    assert(remainder_text@ =~= text@.skip(k + 1 as int));
                    lemma_utf8_len_split(text@, k + 1 as int);
                    lemma_take_next(text@, k as int);
                    lemma_char_width_bounds(delim0);
                }
                match remainder.sub_delimited(remainder_text, delim1) {
                    Ok((second, third)) => Ok((first, second, third)),
                    Err(e) => Err(e),
                }
            },
        }
    }
}

/// A start edge moved right by `amount`, never past `end`.
pub open spec fn shrunk_start(start: usize, end: usize, amount: usize) -> usize {
    let moved = if start + amount > usize::MAX {
        usize::MAX
    } else {
        (start + amount) as usize
    };
    if moved < end {
        moved
    } else {
        end
    }
}

/// An end edge moved left by `amount`, never past `start`.
pub open spec fn shrunk_end(start: usize, end: usize, amount: usize) -> usize {
    let moved = if end - amount < 0 {
        0usize
    } else {
        (end - amount) as usize
    };
    if moved > start {
        moved
    } else {
        start
    }
}

fn shrink_start(start: usize, end: usize, amount: usize) -> (r: usize)
    ensures
        r == shrunk_start(start, end, amount),
{
    let moved = start.saturating_add(amount);
    if moved < end {
        moved
    } else {
        end
    }
}

fn shrink_end(start: usize, end: usize, amount: usize) -> (r: usize)
    ensures
        r == shrunk_end(start, end, amount),
{
    let moved = end.saturating_sub(amount);
    if moved > start {
        moved
    } else {
        start
    }
}

} // verus!
