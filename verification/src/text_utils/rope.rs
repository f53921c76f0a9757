//! The document text: a `ropey` rope, seen as the characters it holds.
//!
//! The rope recognizes the line breaks of [`crate::text_utils::lines`]
//! (its default build, with Unicode line breaks).

use ropey::Rope;
use vstd::prelude::*;

use crate::text_utils::lines::{line_count, line_start};
use crate::text_utils::text_model::utf8_len;

verus! {

#[verifier::external_type_specification]
#[verifier::external_body]
pub struct ExRope(Rope);

/// The characters a rope holds.
pub uninterp spec fn rope_chars(rope: Rope) -> Seq<char>;

/// `Rope::from_str`: a rope holding the characters of `text`.
#[verifier::external_body]
pub(crate) fn rope_from_str(text: &str) -> (r: Rope)
    ensures
        rope_chars(r) == text@,
{
    Rope::from_str(text)
}

/// `Rope::clone`: a rope holding the same characters.
#[verifier::external_body]
pub(crate) fn rope_clone(rope: &Rope) -> (r: Rope)
    ensures
        rope_chars(r) == rope_chars(*rope),
{
    rope.clone()
}

/// `Rope::len_chars`: the number of characters held.
#[verifier::external_body]
pub(crate) fn rope_len_chars(rope: &Rope) -> (r: usize)
    ensures
        r == rope_chars(*rope).len(),
{
    rope.len_chars()
}

/// `Rope::len_bytes`: the number of bytes of the text in UTF-8.
#[verifier::external_body]
pub(crate) fn rope_len_bytes(rope: &Rope) -> (r: usize)
    ensures
        r == utf8_len(rope_chars(*rope)),
{
    rope.len_bytes()
}

/// `Rope::try_line_to_char`: where line `line` starts, or the end of the
/// text one past the last line; an error (`None`) further out.
#[verifier::external_body]
pub(crate) fn rope_try_line_to_char(rope: &Rope, line: usize) -> (r: Option<usize>)
    ensures
        r == (if line <= line_count(rope_chars(*rope)) {
            Some(line_start(rope_chars(*rope), line as nat) as usize)
        } else {
            None
        }),
{
    rope.try_line_to_char(line).ok()
}

/// `Rope::try_char_to_byte`: the byte offset of the character at
/// `char_idx`, or the byte length one past the last; an error (`None`)
/// further out.
#[verifier::external_body]
pub(crate) fn rope_try_char_to_byte(rope: &Rope, char_idx: usize) -> (r: Option<usize>)
    ensures
        r == (if char_idx <= rope_chars(*rope).len() {
            Some(utf8_len(rope_chars(*rope).take(char_idx as int)) as usize)
        } else {
            None
        }),
{
    rope.try_char_to_byte(char_idx).ok()
}

/// `Rope::get_char`: the character at `char_idx`, if there is one.
#[verifier::external_body]
pub(crate) fn rope_get_char(rope: &Rope, char_idx: usize) -> (r: Option<char>)
    ensures
        r == (if char_idx < rope_chars(*rope).len() {
            Some(rope_chars(*rope)[char_idx as int])
        } else {
            None
        }),
{
    rope.get_char(char_idx)
}

/// `Rope::try_remove` on `start..end`: removes those characters when
/// `start <= end <= len`; otherwise fails and changes nothing.
#[verifier::external_body]
pub(crate) fn rope_try_remove(rope: &mut Rope, start: usize, end: usize) -> (r: bool)
    ensures
        r == (start <= end && end <= rope_chars(*old(rope)).len()),
        r ==> rope_chars(*final(rope)) == rope_chars(*old(rope)).take(start as int) + rope_chars(
            *old(rope),
        ).skip(end as int),
        !r ==> rope_chars(*final(rope)) == rope_chars(*old(rope)),
{
    rope.try_remove(start..end).is_ok()
}

/// `Rope::try_insert`: inserts `text` before the character at `char_idx`
/// when `char_idx <= len`; otherwise fails and changes nothing.
#[verifier::external_body]
pub(crate) fn rope_try_insert(rope: &mut Rope, char_idx: usize, text: &str) -> (r: bool)
    ensures
        r == (char_idx <= rope_chars(*old(rope)).len()),
        r ==> rope_chars(*final(rope)) == rope_chars(*old(rope)).take(char_idx as int) + text@
            + rope_chars(*old(rope)).skip(char_idx as int),
        !r ==> rope_chars(*final(rope)) == rope_chars(*old(rope)),
{
    rope.try_insert(char_idx, text).is_ok()
}

} // verus!
