//! Lines of a text and columns within them, as the document text counts
//! them.
//!
//! A line ends at a line break: a line feed, a carriage return (a carriage
//! return directly followed by a line feed being one break with it), a
//! vertical tab, a form feed, a next-line character, or a line or paragraph
//! separator. The break belongs to the line it ends; the text after the last
//! break is the last line, possibly empty.

use vstd::prelude::*;

use super::encoding::Encoding;
use super::text_model::{char_len_utf8, char_width, utf8_len};

verus! {

/// Whether `c` is a line break character.
pub open spec fn is_line_break(c: char) -> bool {
    ||| c == '\n'
    ||| c == '\u{b}'
    ||| c == '\u{c}'
    ||| c == '\r'
    ||| c == '\u{85}'
    ||| c == '\u{2028}'
    ||| c == '\u{2029}'
}

/// Whether a line starts at index `i` of `s`: right after a line break,
/// unless that break is a carriage return that a line feed completes.
pub open spec fn starts_line(s: Seq<char>, i: int) -> bool {
    &&& 0 < i <= s.len()
    &&& is_line_break(s[i - 1])
    &&& !(s[i - 1] == '\r' && i < s.len() && s[i] == '\n')
}

/// How many lines start after the text's beginning and at or before `i`.
pub open spec fn lines_before(s: Seq<char>, i: int) -> nat
    decreases i,
{
    if i <= 0 {
        0
    } else {
        lines_before(s, i - 1) + if starts_line(s, i) {
            1nat
        } else {
            0nat
        }
    }
}

/// The number of lines of `s`: one more than its line breaks.
pub open spec fn line_count(s: Seq<char>) -> nat {
    lines_before(s, s.len() as int) + 1
}

/// Where line `line` of `s` starts; one past the last line, the end of
/// the text.
pub open spec fn line_start(s: Seq<char>, line: nat) -> int {
    if line == 0 {
        0
    } else if line < line_count(s) {
        choose|i: int| starts_line(s, i) && lines_before(s, i) == line
    } else {
        s.len() as int
    }
}

/// How many units of `encoding` the character `c` takes.
pub open spec fn unit_width(c: char, encoding: Encoding) -> nat {
    match encoding {
        Encoding::UTF8 => char_width(c),
        Encoding::UTF16 => if (c as u32) >= 0x10000 {
            2
        } else {
            1
        },
        Encoding::UTF32 => 1,
    }
}

/// How many characters of the line content from `start` fit in `col`
/// units of `encoding`: the longest run of characters from `start`, none of
/// them a line break, whose width is at most `col`. A column past the end
/// of the line stops at its end; one inside a character stops before it.
pub open spec fn fit_chars(s: Seq<char>, start: int, col: int, encoding: Encoding) -> nat
    decreases s.len() - start,
{
    if start < 0 || start >= s.len() || is_line_break(s[start]) || unit_width(s[start], encoding)
        > col {
        0
    } else {
        1 + fit_chars(s, start + 1, col - unit_width(s[start], encoding), encoding)
    }
}

/// A run that fits stays within the text.
pub proof fn lemma_fit_chars_bounded(s: Seq<char>, start: int, col: int, encoding: Encoding)
    requires
        0 <= start <= s.len(),
    ensures
        start + fit_chars(s, start, col, encoding) <= s.len(),
    decreases s.len() - start,
{
    if start < s.len() && !is_line_break(s[start]) && unit_width(s[start], encoding) <= col {
        lemma_fit_chars_bounded(s, start + 1, col - unit_width(s[start], encoding), encoding);
    }
}

/// Whether `c` is a line break character.
pub fn is_line_break_char(c: char) -> (r: bool)
    ensures
        r == is_line_break(c),
{
    c == '\n' || c == '\u{b}' || c == '\u{c}' || c == '\r' || c == '\u{85}' || c == '\u{2028}'
        || c == '\u{2029}'
}

/// How many units of `encoding` the character `c` takes.
pub fn unit_width_of(c: char, encoding: Encoding) -> (r: usize)
    ensures
        r == unit_width(c, encoding),
        1 <= r <= 4,
{
    match encoding {
        Encoding::UTF8 => char_len_utf8(c),
        Encoding::UTF16 => if (c as u32) >= 0x10000 {
            2
        } else {
            1
        },
        Encoding::UTF32 => 1,
    }
}

} // verus!
