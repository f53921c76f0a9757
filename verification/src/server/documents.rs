//! Incremental edits of tracked documents.

use vstd::prelude::*;
use vstd::std_specs::iter::IteratorSpec;

use crate::syntax::TsPoint;
use crate::text_utils::range_ext::tree_sitter::{ts_absolute, ts_absolute_fits};
use crate::text_utils::text_model::{
    byte_point_after, char_len_utf8, lemma_points_bounded, lemma_take_all, lemma_take_next,
    lemma_utf8_len_bounds, lemma_utf8_len_is_encoded_len, lemma_utf8_len_push, text_len, utf8_len,
};

verus! {

broadcast use vstd::string::group_string_axioms;

/// Where an edit that inserts `text` at (`start_byte`, `start_point`) ends
/// in the edited text: after the inserted bytes, and at the point reached
/// by walking over the inserted text (a newline starts the next row, other
/// characters advance the byte column).
pub fn edit_new_end(start_byte: usize, start_point: TsPoint, text: &str) -> (r: (usize, TsPoint))
    requires
        start_byte + utf8_len(text@) <= usize::MAX,
        forall|k: int|
            0 <= k <= text@.len() && (#[trigger] byte_point_after(text@.take(k))).0 == 0
                ==> start_point.column + byte_point_after(text@.take(k)).1 <= usize::MAX,
        ts_absolute_fits(
            start_point,
            TsPoint {
                row: byte_point_after(text@).0 as usize,
                column: byte_point_after(text@).1 as usize,
            },
        ),
    ensures
        r.0 == start_byte + utf8_len(text@),
        r.1 == ts_absolute(
            start_point,
            TsPoint {
                row: byte_point_after(text@).0 as usize,
                column: byte_point_after(text@).1 as usize,
            },
        ),
{
    proof {
        lemma_utf8_len_is_encoded_len(text@);
        lemma_utf8_len_bounds(text@);
        lemma_points_bounded(text@);
    }
    let n = text_len(text);
    let mut it = text.chars();
    let mut k: usize = 0;
    let mut row: usize = start_point.row;
    let mut column: usize = start_point.column;
    let ghost target = byte_point_after(text@);
    loop
        invariant
            n == utf8_len(text@),
            start_byte + n <= usize::MAX,
            forall|j: int|
                0 <= j <= text@.len() && (#[trigger] byte_point_after(text@.take(j))).0 == 0
                    ==> start_point.column + byte_point_after(text@.take(j)).1 <= usize::MAX,
            text@.len() <= n,
            0 <= k <= text@.len(),
            it.remaining() == text@.skip(k as int),
            target == byte_point_after(text@),
            ts_absolute_fits(start_point, TsPoint { row: target.0 as usize, column: target.1 as usize }),
            target.0 <= text@.len(),
            target.1 <= n,
            row == start_point.row + byte_point_after(text@.take(k as int)).0,
            column == if byte_point_after(text@.take(k as int)).0 == 0 {
                start_point.column + byte_point_after(text@.take(k as int)).1
            } else {
                byte_point_after(text@.take(k as int)).1 as int
            },
            byte_point_after(text@.take(k as int)).0 <= target.0,
            byte_point_after(text@.take(k as int)).0 == target.0 ==> byte_point_after(
                text@.take(k as int),
            ).1 <= target.1,
        decreases text@.len() - k,
    {
        let ghost prev = it.remaining();
        match it.next() {
            Some(ch) => {
                proof {
                    assert(ch == text@[k as int]);
                    lemma_take_next(text@, k as int);
                    lemma_utf8_len_push(text@.take(k as int), ch);
                    lemma_point_monotone(text@, k as int + 1);
                    lemma_points_bounded(text@.take(k as int + 1));
                    crate::text_utils::text_model::lemma_utf8_len_take_monotone(
                        text@,
                        k as int + 1,
                        text@.len() as int,
                    );
                    lemma_take_all(text@);
                    assert(byte_point_after(text@.take(k as int + 1)).0 == 0 ==> start_point.column
                        + byte_point_after(text@.take(k as int + 1)).1 <= usize::MAX);
                }
                if ch == '\n' {
                    row = row + 1;
                    column = 0;
                } else {
                    column = column + char_len_utf8(ch);
                }
                k = k + 1;
                proof {
                    assert(text@.skip(k as int) =~= prev.drop_first());
                }
            },
            None => {
                proof {
                    assert(k == text@.len());
                    lemma_take_all(text@);
                }
                return (start_byte + n, TsPoint { row, column });
            },
        }
    }
}

/// The point after a prefix never passes the point after the whole text.
proof fn lemma_point_monotone(s: Seq<char>, k: int)
    requires
        0 <= k <= s.len(),
    ensures
        byte_point_after(s.take(k)).0 <= byte_point_after(s).0,
        byte_point_after(s.take(k)).0 == byte_point_after(s).0 ==> byte_point_after(s.take(k)).1
            <= byte_point_after(s).1,
    decreases s.len() - k,
{
    if k == s.len() {
        lemma_take_all(s);
    } else {
        lemma_point_monotone(s, k + 1);
        lemma_take_next(s, k);
        lemma_utf8_len_push(s.take(k), s[k]);
    }
}

} // verus!
