//! Converting protocol positions between position encodings.
//!
//! Handlers see UTF-8 columns whatever the client negotiated; positions
//! coming in and going out are converted against the document's text.

use ropey::Rope;
use vstd::prelude::*;

use super::encoding::Encoding;
use super::lines::{
    fit_chars, is_line_break, is_line_break_char, lemma_fit_chars_bounded, line_count, line_start,
    unit_width, unit_width_of,
};
use super::lines_lemmas::lemma_line_start_bounded;
use super::rope::{rope_chars, rope_get_char, rope_len_chars, rope_try_line_to_char};
use crate::protocol::LspPosition;

verus! {

/// How many units of `encoding` the characters of `s` take.
pub open spec fn width_in(s: Seq<char>, encoding: Encoding) -> nat
    decreases s.len(),
{
    if s.len() == 0 {
        0
    } else {
        unit_width(s[0], encoding) + width_in(s.drop_first(), encoding)
    }
}

/// The column, in `to` units, of the position `col` units of `from` into
/// the line starting at `start`: the width in `to` of the characters that
/// fit in `col` units of `from`.
pub open spec fn converted_column(
    s: Seq<char>,
    start: int,
    col: int,
    from: Encoding,
    to: Encoding,
) -> nat {
    width_in(s.subrange(start, start + fit_chars(s, start, col, from)), to)
}

/// `n` as a `u32`, saturating.
pub open spec fn saturate_u32(n: nat) -> u32 {
    if n > u32::MAX {
        u32::MAX
    } else {
        n as u32
    }
}

/// The position converted from `from` to `to` columns on the text `s`: a
/// position on a line the text has keeps its line, its column becomes the
/// width in `to` of the line's characters that fit in the column (saturated
/// to `u32`); a position on a line past the end is kept as it is.
pub open spec fn converted_position(
    s: Seq<char>,
    position: LspPosition,
    from: Encoding,
    to: Encoding,
) -> LspPosition {
    if position.line <= line_count(s) {
        LspPosition {
            line: position.line,
            character: saturate_u32(
                converted_column(
                    s,
                    line_start(s, position.line as nat),
                    position.character as int,
                    from,
                    to,
                ),
            ),
        }
    } else {
        position
    }
}

proof fn lemma_width_in_push(s: Seq<char>, c: char, encoding: Encoding)
    ensures
        width_in(s.push(c), encoding) == width_in(s, encoding) + unit_width(c, encoding),
    decreases s.len(),
{
    if s.len() > 0 {
        lemma_width_in_push(s.drop_first(), c, encoding);
        assert(s.push(c).drop_first() =~= s.drop_first().push(c));
        assert(s.push(c)[0] == s[0]);
        assert(width_in(s.push(c), encoding) == unit_width(s[0], encoding) + width_in(
            s.drop_first().push(c),
            encoding,
        ));
    } else {
        assert(s.push(c).drop_first() =~= Seq::<char>::empty());
        assert(s.push(c)[0] == c);
        assert(width_in(Seq::<char>::empty(), encoding) == 0);
    }
}

/// Converts the column of `position` from `from` units to `to` units
/// within its line of `text` (see [`converted_position`]).
pub fn position_to_encoding(text: &Rope, position: LspPosition, from: Encoding, to: Encoding) -> (r:
    LspPosition)
    ensures
        r == converted_position(rope_chars(*text), position, from, to),
{
    let ghost s = rope_chars(*text);
    let len = rope_len_chars(text);
    let start = match rope_try_line_to_char(text, position.line as usize) {
        Some(i) => i,
        None => return position,
    };
    proof {
        lemma_line_start_bounded(s, position.line as nat);
    }
    let cap: u64 = 0x1_0000_0000;
    let mut idx = start;
    let mut left: usize = position.character as usize;
    let mut width: u64 = 0;
    proof {
        assert(s.subrange(start as int, start as int) =~= Seq::<char>::empty());
    }
    loop
        invariant
            s == rope_chars(*text),
            len == s.len(),
            start <= idx <= s.len(),
            start == line_start(s, position.line as nat),
            position.line <= line_count(s),
            cap == 0x1_0000_0000u64,
            width <= cap,
            fit_chars(s, start as int, position.character as int, from) == (idx - start) + fit_chars(
                s,
                idx as int,
                left as int,
                from,
            ),
            width as int == if width_in(s.subrange(start as int, idx as int), to) > cap {
                cap as int
            } else {
                width_in(s.subrange(start as int, idx as int), to) as int
            },
        decreases s.len() - idx,
    {
        let next = rope_get_char(text, idx);
        let stop = match next {
            None => true,
            Some(c) => is_line_break_char(c) || unit_width_of(c, from) > left,
        };
        if stop {
            proof {
                assert(fit_chars(s, idx as int, left as int, from) == 0);
                assert(s.subrange(start as int, start + fit_chars(
                    s,
                    start as int,
                    position.character as int,
                    from,
                )) =~= s.subrange(start as int, idx as int));
            }
            let character = if width > 0xffff_ffff {
                0xffff_ffffu32
            } else {
                width as u32
            };
            proof {
                let k = fit_chars(s, start as int, position.character as int, from);
                assert(converted_column(s, start as int, position.character as int, from, to)
                    == width_in(s.subrange(start as int, idx as int), to));
            }
            return LspPosition { line: position.line, character };
        }
        let c = match next {
            Some(c) => c,
            None => {
                proof {
                    assert(false);
                }
                return position;
            },
        };
        left = left - unit_width_of(c, from);
        let w = unit_width_of(c, to) as u64;
        proof {
            assert(s.subrange(start as int, idx + 1) =~= s.subrange(start as int, idx as int).push(c));
            lemma_width_in_push(s.subrange(start as int, idx as int), c, to);
        }
        width = if width + w > cap {
            cap
        } else {
            width + w
        };
        idx = idx + 1;
    }
}

/// The characters that fit in the width they take: converting a column
/// that lies on a character boundary of its line content to another
/// encoding and back gives it back.
pub proof fn lemma_fit_width(s: Seq<char>, start: int, k: nat, encoding: Encoding)
    requires
        0 <= start,
        start + k <= s.len(),
        forall|i: int| start <= i < start + k ==> !is_line_break(#[trigger] s[i]),
    ensures
        fit_chars(s, start, width_in(s.subrange(start, start + k), encoding) as int, encoding) == k,
    decreases k,
{
    let w = width_in(s.subrange(start, start + k), encoding) as int;
    if k == 0 {
        assert(s.subrange(start, start) =~= Seq::<char>::empty());
        if start < s.len() && !is_line_break(s[start]) {
            assert(unit_width(s[start], encoding) >= 1) by {
                if encoding == Encoding::UTF8 {
                    crate::text_utils::text_model::lemma_char_width_bounds(s[start]);
                }
            }
        }
    } else {
        assert(s.subrange(start, start + k).drop_first() =~= s.subrange(start + 1, start + k));
        assert(s.subrange(start, start + k)[0] == s[start]);
        lemma_fit_width(s, start + 1, (k - 1) as nat, encoding);
    }
}

/// Converting a position whose column lies on a character boundary of its
/// line's content from one encoding to another and back gives the
/// position back, as long as the intermediate column fits in `u32`.
pub proof fn law_conversion_round_trip(
    s: Seq<char>,
    position: LspPosition,
    from: Encoding,
    to: Encoding,
)
    requires
        position.line <= line_count(s),
        ({
            let start = line_start(s, position.line as nat);
            let k = fit_chars(s, start, position.character as int, from);
            &&& width_in(s.subrange(start, start + k), from) == position.character
            &&& converted_column(s, start, position.character as int, from, to) <= u32::MAX
        }),
    ensures
        converted_position(s, converted_position(s, position, from, to), to, from) == position,
{
    let start = line_start(s, position.line as nat);
    lemma_line_start_bounded(s, position.line as nat);
    let k = fit_chars(s, start, position.character as int, from);
    lemma_fit_chars_bounded(s, start, position.character as int, from);
    lemma_fit_chars_content(s, start, position.character as int, from);
    lemma_fit_width(s, start, k, to);
}

/// The characters that fit are line content.
pub proof fn lemma_fit_chars_content(s: Seq<char>, start: int, col: int, encoding: Encoding)
    requires
        0 <= start <= s.len(),
    ensures
        forall|i: int| start <= i < start + fit_chars(s, start, col, encoding) ==> !is_line_break(
            #[trigger] s[i],
        ),
    decreases s.len() - start,
{
    if start < s.len() && !is_line_break(s[start]) && unit_width(s[start], encoding) <= col {
        lemma_fit_chars_content(s, start + 1, col - unit_width(s[start], encoding), encoding);
    }
}

} // verus!
