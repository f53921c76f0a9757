//! What holds across the range operations.

use std::ops::Range;

use vstd::prelude::*;

use super::{left_of, right_of, RangeExt};
use super::lsp::lsp_absolute_fits;
use crate::error::RangeError;
use crate::protocol::{LspPosition, LspRange, lsp_position_le};
use crate::syntax::{TsPoint, TsRange};

verus! {

/// A byte range split in two is partitioned: the left part starts where the
/// range starts, the right part ends where it ends, and they meet at the
/// split point; the split fails exactly when the point lies past the end.
pub proof fn law_byte_split_partitions(r: Range<usize>, text: Seq<char>, at: usize)
    requires
        r.start <= r.end,
    ensures
        match r.split_at_spec(text, at) {
            Ok((left, right)) => {
                &&& left.start == r.start
                &&& left.end == right.start
                &&& right.end == r.end
                &&& left.start <= left.end <= right.end
            },
            Err(e) => e == RangeError::PositionOutOfRange && at > r.end - r.start,
        },
        at <= r.end - r.start ==> r.split_at_spec(text, at) is Ok,
{
}

/// Splitting a byte range at a point gives the subranges before and after
/// that point.
pub proof fn law_byte_split_is_two_subranges(r: Range<usize>, text: Seq<char>, at: usize)
    requires
        r.start <= r.end,
        at <= r.end - r.start,
    ensures
        r.split_at_spec(text, at) == Ok::<(Range<usize>, Range<usize>), RangeError>(
            (
                r.sub_spec(text, 0, at)->Ok_0,
                r.sub_spec(text, at, (r.end - r.start) as usize)->Ok_0,
            ),
        ),
        r.sub_spec(text, 0, (r.end - r.start) as usize) == Ok::<Range<usize>, RangeError>(r),
{
}

/// A protocol range split in two is partitioned the same way, each part
/// ordered start before end.
pub proof fn law_lsp_split_partitions(r: LspRange, text: Seq<char>, at: LspPosition)
    requires
        r.split_at_requires(text, at),
    ensures
        r.split_at_spec(text, at) matches Ok((left, right)) ==> {
            &&& left.start == r.start
            &&& left.end == right.start
            &&& right.end == r.end
            &&& lsp_position_le(left.start, left.end)
            &&& lsp_position_le(right.start, right.end)
        },
{
}

/// A tree-sitter range split in two is partitioned in bytes and in points.
pub proof fn law_ts_split_partitions(r: TsRange, text: Seq<char>, at: TsPoint)
    requires
        r.split_at_requires(text, at),
    ensures
        r.split_at_spec(text, at) matches Ok((left, right)) ==> {
            &&& left.start_byte == r.start_byte
            &&& left.start_point == r.start_point
            &&& left.end_byte == right.start_byte
            &&& left.end_point == right.start_point
            &&& right.end_byte == r.end_byte
            &&& right.end_point == r.end_point
        },
{
}

/// Splitting off one side agrees with the split, for every kind of range:
/// the side kept is the matching part of the split, and a failure is the
/// split's own error. `split_off_left` and `split_off_right` state their
/// results as these sides on every input the split accepts.
pub proof fn law_split_off_agrees_with_split<R: RangeExt>(r: R, text: Seq<char>, at: R::Position)
    ensures
        match r.split_at_spec(text, at) {
            Ok(parts) => left_of(r.split_at_spec(text, at)) == Ok::<R, RangeError>(parts.0)
                && right_of(r.split_at_spec(text, at)) == Ok::<R, RangeError>(parts.1),
            Err(e) => left_of(r.split_at_spec(text, at)) == Err::<R, RangeError>(e) && right_of(
                r.split_at_spec(text, at),
            ) == Err::<R, RangeError>(e),
        },
{
}

/// Positions relative to a protocol range count lines from the range's
/// start line; on that line the characters add to the start's character,
/// and on a later line the character is the position's own. So splitting
/// at a relative position, or taking a relative subrange, lands there, on
/// every input that fits `u32`.
pub proof fn law_lsp_relative_positions(
    r: LspRange,
    text: Seq<char>,
    at: LspPosition,
    from: LspPosition,
    to: LspPosition,
)
    requires
        lsp_absolute_fits(r.start, at),
        lsp_absolute_fits(r.start, from),
        lsp_absolute_fits(r.start, to),
    ensures
        r.split_at_spec(text, at) matches Ok((left, right)) ==> {
            &&& left.start == r.start && right.end == r.end && left.end == right.start
            &&& left.end.line == r.start.line + at.line
            &&& at.line > 0 ==> left.end.character == at.character
            &&& at.line == 0 ==> left.end.character == r.start.character + at.character
        },
        r.sub_spec(text, from, to) matches Ok(sub) ==> {
            &&& sub.start.line == r.start.line + from.line
            &&& from.line > 0 ==> sub.start.character == from.character
            &&& from.line == 0 ==> sub.start.character == r.start.character + from.character
            &&& sub.end.line == r.start.line + to.line
            &&& to.line > 0 ==> sub.end.character == to.character
            &&& to.line == 0 ==> sub.end.character == r.start.character + to.character
        },
{
}

/// Shrinking a single-line tree-sitter range moves each edge inwards by
/// its own amount, never past the other edge, in bytes and in point
/// columns alike: each column moves from its own old column, whatever the
/// byte offsets are. The rows stay. A range over several lines is refused.
pub proof fn law_ts_shrink_moves_each_edge(r: TsRange, amount_left: usize, amount_right: usize)
    ensures
        r.start_point.row != r.end_point.row ==> r.shrink_spec(amount_left, amount_right) == Err::<
            TsRange,
            RangeError,
        >(RangeError::NotSingleLine),
        r.start_point.row == r.end_point.row ==> (r.shrink_spec(amount_left, amount_right) matches Ok(
            s,
        ) && {
            &&& s.start_point.row == r.start_point.row && s.end_point.row == r.end_point.row
            &&& s.start_point.column == if r.start_point.column + amount_left < r.end_point.column {
                r.start_point.column + amount_left
            } else {
                r.end_point.column as int
            }
            &&& s.end_point.column == if r.end_point.column - amount_right > r.start_point.column {
                r.end_point.column - amount_right
            } else {
                r.start_point.column as int
            }
            &&& s.start_byte == if r.start_byte + amount_left < r.end_byte {
                r.start_byte + amount_left
            } else {
                r.end_byte as int
            }
            &&& s.end_byte == if r.end_byte - amount_right > r.start_byte {
                r.end_byte - amount_right
            } else {
                r.start_byte as int
            }
        }),
{
}

/// Shrinking a single-line protocol range moves each edge's character
/// inwards by its own amount, never past the other edge; the lines stay. A
/// range over several lines is refused.
pub proof fn law_lsp_shrink_moves_each_edge(r: LspRange, amount_left: usize, amount_right: usize)
    ensures
        r.start.line != r.end.line ==> r.shrink_spec(amount_left, amount_right) == Err::<
            LspRange,
            RangeError,
        >(RangeError::NotSingleLine),
        r.start.line == r.end.line ==> (r.shrink_spec(amount_left, amount_right) matches Ok(s) && {
            &&& s.start.line == r.start.line && s.end.line == r.end.line
            &&& s.start.character == if r.start.character + amount_left < r.end.character {
                r.start.character + amount_left
            } else {
                r.end.character as int
            }
            &&& s.end.character == if r.end.character - amount_right > r.start.character {
                r.end.character - amount_right
            } else {
                r.start.character as int
            }
        }),
{
}

/// Shrinking a byte range moves each edge inwards by its own amount, never
/// past the other edge.
pub proof fn law_byte_shrink_moves_each_edge(r: Range<usize>, amount_left: usize, amount_right: usize)
    ensures
        r.shrink_spec(amount_left, amount_right) matches Ok(s) && {
            &&& s.start == if r.start + amount_left < r.end {
                r.start + amount_left
            } else {
                r.end as int
            }
            &&& s.end == if r.end - amount_right > r.start {
                r.end - amount_right
            } else {
                r.start as int
            }
        },
{
}

} // verus!
