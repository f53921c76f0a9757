use async_language_server::error::RangeError;
use async_language_server::protocol::{LspPosition, LspRange};
use async_language_server::syntax::{TsPoint, TsRange};
use async_language_server::text_utils::RangeExt;

type ByteRange = std::ops::Range<usize>;

const NO_TEXT: &str = "";
const LF: char = '\n';
const D1: char = '/';
const D2: char = '@';

fn lp(line: u32, character: u32) -> LspPosition {
    LspPosition { line, character }
}

fn lr(start: LspPosition, end: LspPosition) -> LspRange {
    LspRange { start, end }
}

fn tp(row: usize, column: usize) -> TsPoint {
    TsPoint { row, column }
}

fn tr(start_byte: usize, start_point: TsPoint, end_byte: usize, end_point: TsPoint) -> TsRange {
    TsRange { start_byte, end_byte, start_point, end_point }
}

// --- byte ranges ---

#[test]
fn byte_split_at_divides_the_range_at_a_relative_position() {
    let cases: [(ByteRange, usize, ByteRange, ByteRange); 3] = [
        (0..10, 5, 0..5, 5..10),
        (5..15, 0, 5..5, 5..15),
        (5..15, 10, 5..15, 15..15),
    ];
    for (range, at, left, right) in cases {
        assert_eq!(range.split_at(NO_TEXT, at), Ok((left, right)));
    }
}

#[test]
fn byte_split_off_returns_the_kept_side() {
    assert_eq!((0..10).split_off_left(NO_TEXT, 3), Ok(0..3));
    assert_eq!((0..10).split_off_right(NO_TEXT, 7), Ok(7..10));
    assert_eq!((5..15).split_off_left(NO_TEXT, 0), Ok(5..5));
    assert_eq!((5..15).split_off_right(NO_TEXT, 10), Ok(15..15));
}

#[test]
fn byte_shrink_narrows_both_edges() {
    assert_eq!((0..10).shrink(2, 3), Ok(2..7));
    // Edges never move past each other's original position.
    assert_eq!((0..10).shrink(20, 20), Ok(10..0));
    assert_eq!((3..5).shrink(usize::MAX, usize::MAX), Ok(5..3));
}

#[test]
fn byte_sub_resolves_relative_positions() {
    let cases: [(ByteRange, usize, usize, Result<ByteRange, RangeError>); 5] = [
        (0..10, 2, 8, Ok(2..8)),
        (5..15, 3, 3, Ok(8..8)),
        (5..10, 5, 5, Ok(10..10)),
        (5..10, 0, 5, Ok(5..10)),
        (5..10, 6, 6, Err(RangeError::PositionOutOfRange)),
    ];
    for (range, from, to, expected) in cases {
        assert_eq!(range.sub(NO_TEXT, from, to), expected);
    }
}

#[test]
fn byte_out_of_range_and_reversed_positions_are_rejected() {
    assert_eq!((0..10).split_at(NO_TEXT, 11), Err(RangeError::PositionOutOfRange));
    assert_eq!((0..10).sub(NO_TEXT, 3, 11), Err(RangeError::PositionOutOfRange));
    assert_eq!((0..10).sub(NO_TEXT, 7, 3), Err(RangeError::StartAfterEnd));
    assert_eq!((5..10).split_at(NO_TEXT, 6), Err(RangeError::PositionOutOfRange));
}

#[test]
fn byte_sub_delimited_splits_around_the_delimiter() {
    assert_eq!((0..7).sub_delimited("one/two", D1), Ok((Some(0..3), Some(4..7))));
    assert_eq!((0..4).sub_delimited("/two", D1), Ok((None, Some(1..4))));
    assert_eq!((0..4).sub_delimited("one/", D1), Ok((Some(0..3), None)));
    assert_eq!((0..3).sub_delimited("one", D1), Ok((Some(0..3), None)));
    assert_eq!((0..0).sub_delimited("", D1), Ok((None, None)));
    assert_eq!((5..12).sub_delimited("one/two", D1), Ok((Some(5..8), Some(9..12))));
    // Multi-byte text before the delimiter counts in bytes.
    assert_eq!((0..8).sub_delimited("ü🙂/x", D1), Ok((Some(0..6), Some(7..8))));
}

#[test]
fn byte_sub_delimited_tri_slices_three_segments() {
    assert_eq!(
        (0..13).sub_delimited_tri("one/two@three", D1, D2),
        Ok((Some(0..3), Some(4..7), Some(8..13))),
    );
    assert_eq!((0..7).sub_delimited_tri("one/two", D1, D2), Ok((Some(0..3), Some(4..7), None)));
    assert_eq!((0..3).sub_delimited_tri("one", D1, D2), Ok((Some(0..3), None, None)));
    assert_eq!((0..0).sub_delimited_tri("", D1, D2), Ok((None, None, None)));
    assert_eq!((0..4).sub_delimited_tri("one/", D1, D2), Ok((Some(0..3), None, None)));
}

#[test]
fn byte_delimiter_and_length_errors() {
    assert_eq!(
        (0..9).sub_delimited("one—two", '—'),
        Err(RangeError::DelimiterNotSingleByte { delimiter: '—' }),
    );
    assert_eq!(
        (0..7).sub_delimited("short", D1),
        Err(RangeError::TextRangeMismatch { text_len: 5, range_len: 7 }),
    );
    assert_eq!(
        (5..12).sub_delimited_tri("one/tw", D1, D2),
        Err(RangeError::TextRangeMismatch { text_len: 6, range_len: 7 }),
    );
    assert_eq!(
        (5..12).sub_delimited("one/tw", D1),
        Err(RangeError::TextRangeMismatch { text_len: 6, range_len: 7 }),
    );
    assert_eq!(
        (0..3).sub_delimited_tri("a/b", D1, 'é'),
        Err(RangeError::DelimiterNotSingleByte { delimiter: 'é' }),
    );
}

// --- protocol ranges ---

#[test]
fn lsp_split_at_divides_the_range_at_a_relative_position() {
    let cases = [
        (lr(lp(0, 0), lp(0, 10)), lp(0, 5), lr(lp(0, 0), lp(0, 5)), lr(lp(0, 5), lp(0, 10))),
        (lr(lp(0, 0), lp(2, 5)), lp(1, 3), lr(lp(0, 0), lp(1, 3)), lr(lp(1, 3), lp(2, 5))),
        (lr(lp(1, 5), lp(1, 15)), lp(0, 0), lr(lp(1, 5), lp(1, 5)), lr(lp(1, 5), lp(1, 15))),
        (lr(lp(1, 5), lp(1, 15)), lp(0, 10), lr(lp(1, 5), lp(1, 15)), lr(lp(1, 15), lp(1, 15))),
    ];
    for (range, at, left, right) in cases {
        assert_eq!(range.split_at(NO_TEXT, at), Ok((left, right)));
    }
}

#[test]
fn lsp_split_off_returns_the_kept_side() {
    let range = lr(lp(0, 0), lp(0, 10));
    assert_eq!(range.split_off_left(NO_TEXT, lp(0, 3)), Ok(lr(lp(0, 0), lp(0, 3))));
    assert_eq!(range.split_off_right(NO_TEXT, lp(0, 7)), Ok(lr(lp(0, 7), lp(0, 10))));
    let range = lr(lp(1, 5), lp(1, 15));
    assert_eq!(range.split_off_left(NO_TEXT, lp(0, 0)), Ok(lr(lp(1, 5), lp(1, 5))));
    assert_eq!(range.split_off_right(NO_TEXT, lp(0, 10)), Ok(lr(lp(1, 15), lp(1, 15))));
}

#[test]
fn lsp_shrink_is_single_line_only() {
    assert_eq!(lr(lp(0, 0), lp(0, 5)).shrink(1, 2), Ok(lr(lp(0, 1), lp(0, 3))));
    assert_eq!(lr(lp(0, 0), lp(1, 0)).shrink(1, 2), Err(RangeError::NotSingleLine));
    // Amounts beyond u32 saturate.
    assert_eq!(lr(lp(4, 2), lp(4, 9)).shrink(usize::MAX, 0), Ok(lr(lp(4, 9), lp(4, 9))));
}

#[test]
fn lsp_sub_resolves_relative_positions() {
    let cases = [
        (lr(lp(0, 0), lp(0, 10)), lp(0, 2), lp(0, 8), lr(lp(0, 2), lp(0, 8))),
        (lr(lp(1, 5), lp(1, 15)), lp(0, 3), lp(0, 3), lr(lp(1, 8), lp(1, 8))),
        (lr(lp(0, 0), lp(2, 10)), lp(0, 5), lp(1, 3), lr(lp(0, 5), lp(1, 3))),
        (lr(lp(5, 0), lp(7, 10)), lp(2, 3), lp(2, 8), lr(lp(7, 3), lp(7, 8))),
    ];
    for (range, from, to, expected) in cases {
        assert_eq!(range.sub(NO_TEXT, from, to), Ok(expected));
    }
}

#[test]
fn lsp_errors() {
    let range = lr(lp(0, 0), lp(0, 10));
    assert_eq!(range.split_at(NO_TEXT, lp(0, 11)), Err(RangeError::PositionOutOfRange));
    assert_eq!(range.sub(NO_TEXT, lp(0, 3), lp(0, 11)), Err(RangeError::PositionOutOfRange));
    assert_eq!(range.sub(NO_TEXT, lp(0, 7), lp(0, 3)), Err(RangeError::StartAfterEnd));
    assert_eq!(
        lr(lp(0, 0), lp(0, 7)).sub_delimited("one—two", '—'),
        Err(RangeError::DelimiterNotSingleByte { delimiter: '—' }),
    );
}

#[test]
fn lsp_sub_delimited_splits_around_the_delimiter() {
    let cases = [
        (lr(lp(0, 0), lp(0, 7)), "one/two", D1, Some(lr(lp(0, 0), lp(0, 3))), Some(lr(lp(0, 4), lp(0, 7)))),
        (lr(lp(0, 0), lp(1, 3)), "abc\ndef", LF, Some(lr(lp(0, 0), lp(0, 3))), Some(lr(lp(1, 0), lp(1, 3)))),
        (lr(lp(0, 0), lp(0, 4)), "/abc", D1, None, Some(lr(lp(0, 1), lp(0, 4)))),
        (lr(lp(0, 0), lp(0, 4)), "abc/", D1, Some(lr(lp(0, 0), lp(0, 3))), None),
        (lr(lp(0, 0), lp(0, 3)), "abc", D1, Some(lr(lp(0, 0), lp(0, 3))), None),
        (lr(lp(0, 0), lp(0, 0)), NO_TEXT, D1, None, None),
    ];
    for (range, text, delimiter, left, right) in cases {
        assert_eq!(range.sub_delimited(text, delimiter), Ok((left, right)));
    }
}

#[test]
fn lsp_sub_delimited_counts_characters_not_bytes() {
    // Two multi-byte characters before the delimiter: the protocol range
    // counts them as characters.
    assert_eq!(
        lr(lp(0, 0), lp(0, 4)).sub_delimited("é🙂/x", D1),
        Ok((Some(lr(lp(0, 0), lp(0, 2))), Some(lr(lp(0, 3), lp(0, 4))))),
    );
}

#[test]
fn lsp_sub_delimited_tri_slices_three_segments() {
    let cases = [
        (
            lr(lp(0, 0), lp(0, 13)),
            "one/two@three",
            D1,
            (Some(lr(lp(0, 0), lp(0, 3))), Some(lr(lp(0, 4), lp(0, 7))), Some(lr(lp(0, 8), lp(0, 13)))),
        ),
        (
            lr(lp(0, 0), lp(0, 7)),
            "one/two",
            D1,
            (Some(lr(lp(0, 0), lp(0, 3))), Some(lr(lp(0, 4), lp(0, 7))), None),
        ),
        (lr(lp(0, 0), lp(0, 3)), "abc", D1, (Some(lr(lp(0, 0), lp(0, 3))), None, None)),
        (
            lr(lp(0, 0), lp(2, 3)),
            "one\ntwo\n@@@",
            LF,
            (Some(lr(lp(0, 0), lp(0, 3))), Some(lr(lp(1, 0), lp(2, 0))), Some(lr(lp(2, 1), lp(2, 3)))),
        ),
    ];
    for (range, text, delim0, expected) in cases {
        assert_eq!(range.sub_delimited_tri(text, delim0, D2), Ok(expected));
    }
    assert_eq!(lr(lp(0, 0), lp(0, 0)).sub_delimited_tri("", D1, D2), Ok((None, None, None)));
}

// --- tree-sitter ranges ---

#[test]
fn ts_split_at_divides_the_range_at_a_relative_position() {
    let cases = [
        (tr(0, tp(0, 0), 5, tp(0, 5)), "hello", tp(0, 2), tr(0, tp(0, 0), 2, tp(0, 2)), tr(2, tp(0, 2), 5, tp(0, 5))),
        (tr(0, tp(0, 0), 7, tp(1, 3)), "one\ntwo", tp(1, 1), tr(0, tp(0, 0), 5, tp(1, 1)), tr(5, tp(1, 1), 7, tp(1, 3))),
        (tr(5, tp(1, 3), 10, tp(2, 2)), "ab\ncd", tp(0, 1), tr(5, tp(1, 3), 6, tp(1, 4)), tr(6, tp(1, 4), 10, tp(2, 2))),
        (tr(0, tp(0, 0), 5, tp(0, 5)), "hello", tp(0, 0), tr(0, tp(0, 0), 0, tp(0, 0)), tr(0, tp(0, 0), 5, tp(0, 5))),
        (tr(0, tp(0, 0), 5, tp(0, 5)), "hello", tp(0, 5), tr(0, tp(0, 0), 5, tp(0, 5)), tr(5, tp(0, 5), 5, tp(0, 5))),
        (tr(0, tp(0, 0), 11, tp(1, 5)), "line1\nline2", tp(1, 0), tr(0, tp(0, 0), 6, tp(1, 0)), tr(6, tp(1, 0), 11, tp(1, 5))),
    ];
    for (range, text, at, left, right) in cases {
        assert_eq!(range.split_at(text, at), Ok((left, right)));
    }
}

#[test]
fn ts_split_off_returns_the_kept_side() {
    let range = tr(0, tp(0, 0), 5, tp(0, 5));
    assert_eq!(range.split_off_left("hello", tp(0, 3)), Ok(tr(0, tp(0, 0), 3, tp(0, 3))));
    assert_eq!(range.split_off_right("hello", tp(0, 2)), Ok(tr(2, tp(0, 2), 5, tp(0, 5))));
    assert_eq!(range.split_off_left("hello", tp(0, 0)), Ok(tr(0, tp(0, 0), 0, tp(0, 0))));
    assert_eq!(range.split_off_right("hello", tp(0, 5)), Ok(tr(5, tp(0, 5), 5, tp(0, 5))));
}

#[test]
fn ts_shrink_is_single_line_only() {
    assert_eq!(tr(0, tp(0, 0), 5, tp(0, 5)).shrink(1, 2), Ok(tr(1, tp(0, 1), 3, tp(0, 3))));
    assert_eq!(tr(0, tp(0, 0), 2, tp(1, 0)).shrink(1, 2), Err(RangeError::NotSingleLine));
}

#[test]
fn ts_sub_resolves_relative_positions() {
    let cases = [
        (tr(0, tp(0, 0), 5, tp(0, 5)), "hello", tp(0, 1), tp(0, 4), tr(1, tp(0, 1), 4, tp(0, 4))),
        (tr(10, tp(1, 5), 15, tp(1, 10)), "hello", tp(0, 2), tp(0, 2), tr(12, tp(1, 7), 12, tp(1, 7))),
        (tr(0, tp(0, 0), 13, tp(2, 5)), "one\ntwo\nthree", tp(0, 2), tp(1, 1), tr(2, tp(0, 2), 5, tp(1, 1))),
        (tr(0, tp(0, 0), 17, tp(2, 5)), "line1\nline2\nline3", tp(0, 3), tp(2, 2), tr(3, tp(0, 3), 14, tp(2, 2))),
        (tr(0, tp(2, 0), 5, tp(3, 2)), "ab\ncd", tp(1, 0), tp(1, 2), tr(3, tp(3, 0), 5, tp(3, 2))),
        (tr(0, tp(0, 0), 8, tp(2, 2)), "ab\ncd\nef", tp(0, 1), tp(1, 1), tr(1, tp(0, 1), 4, tp(1, 1))),
        (tr(0, tp(0, 0), 8, tp(2, 2)), "ab\ncd\nef", tp(2, 2), tp(2, 2), tr(8, tp(2, 2), 8, tp(2, 2))),
    ];
    for (range, text, from, to, expected) in cases {
        assert_eq!(range.sub(text, from, to), Ok(expected));
    }
}

#[test]
fn ts_sub_positions_beyond_the_text_return_position_out_of_range() {
    let cases = [
        (tr(0, tp(0, 0), 5, tp(0, 5)), "hello", tp(0, 1), tp(0, 9)),
        (tr(0, tp(0, 0), 5, tp(0, 5)), "hello", tp(0, 9), tp(0, 9)),
        (tr(0, tp(0, 0), 8, tp(2, 2)), "ab\ncd\nef", tp(0, 3), tp(1, 0)),
        (tr(0, tp(0, 0), 6, tp(2, 2)), "ab\n\ncd", tp(1, 2), tp(2, 0)),
        (tr(0, tp(0, 0), 5, tp(0, 5)), "hello", tp(0, 1), tp(1, 5)),
    ];
    for (range, text, from, to) in cases {
        assert_eq!(range.sub(text, from, to), Err(RangeError::PositionOutOfRange));
    }
    assert_eq!(
        tr(0, tp(0, 0), 5, tp(0, 5)).sub("hello", tp(0, 3), tp(0, 1)),
        Err(RangeError::StartAfterEnd),
    );
}

#[test]
fn ts_positions_inside_a_character_are_out_of_range() {
    // Byte column 1 falls inside the two-byte `é`.
    assert_eq!(
        tr(0, tp(0, 0), 3, tp(0, 3)).split_at("éa", tp(0, 1)),
        Err(RangeError::PositionOutOfRange),
    );
    assert_eq!(
        tr(0, tp(0, 0), 3, tp(0, 3)).split_at("éa", tp(0, 2)),
        Ok((tr(0, tp(0, 0), 2, tp(0, 2)), tr(2, tp(0, 2), 3, tp(0, 3)))),
    );
}

#[test]
fn ts_sub_delimited_splits_around_the_delimiter() {
    let cases = [
        (tr(0, tp(0, 0), 7, tp(0, 7)), "one/two", D1, Some(tr(0, tp(0, 0), 3, tp(0, 3))), Some(tr(4, tp(0, 4), 7, tp(0, 7)))),
        (tr(0, tp(0, 0), 7, tp(1, 3)), "abc\ndef", LF, Some(tr(0, tp(0, 0), 3, tp(0, 3))), Some(tr(4, tp(1, 0), 7, tp(1, 3)))),
        (tr(0, tp(0, 0), 22, tp(2, 3)), "start\nfirst/second\nend", D1, Some(tr(0, tp(0, 0), 11, tp(1, 5))), Some(tr(12, tp(1, 6), 22, tp(2, 3)))),
        (tr(0, tp(0, 0), 4, tp(0, 4)), "/abc", D1, None, Some(tr(1, tp(0, 1), 4, tp(0, 4)))),
        (tr(0, tp(0, 0), 4, tp(0, 4)), "abc/", D1, Some(tr(0, tp(0, 0), 3, tp(0, 3))), None),
        (tr(0, tp(0, 0), 3, tp(0, 3)), "abc", D1, Some(tr(0, tp(0, 0), 3, tp(0, 3))), None),
        (tr(0, tp(0, 0), 0, tp(0, 0)), "", D1, None, None),
    ];
    for (range, text, delimiter, left, right) in cases {
        assert_eq!(range.sub_delimited(text, delimiter), Ok((left, right)));
    }
}

#[test]
fn ts_sub_delimited_tri_slices_three_segments() {
    let cases = [
        (
            tr(0, tp(0, 0), 13, tp(0, 13)),
            "one/two@three",
            D1,
            (Some(tr(0, tp(0, 0), 3, tp(0, 3))), Some(tr(4, tp(0, 4), 7, tp(0, 7))), Some(tr(8, tp(0, 8), 13, tp(0, 13)))),
        ),
        (
            tr(0, tp(0, 0), 11, tp(2, 3)),
            "one\ntwo\n@@@",
            LF,
            (Some(tr(0, tp(0, 0), 3, tp(0, 3))), Some(tr(4, tp(1, 0), 8, tp(2, 0))), Some(tr(9, tp(2, 1), 11, tp(2, 3)))),
        ),
        (
            tr(5, tp(1, 3), 10, tp(1, 8)),
            "a/b@c",
            D1,
            (Some(tr(5, tp(1, 3), 6, tp(1, 4))), Some(tr(7, tp(1, 5), 8, tp(1, 6))), Some(tr(9, tp(1, 7), 10, tp(1, 8)))),
        ),
        (
            tr(0, tp(0, 0), 7, tp(0, 7)),
            "one/two",
            D1,
            (Some(tr(0, tp(0, 0), 3, tp(0, 3))), Some(tr(4, tp(0, 4), 7, tp(0, 7))), None),
        ),
        (tr(0, tp(0, 0), 3, tp(0, 3)), "abc", D1, (Some(tr(0, tp(0, 0), 3, tp(0, 3))), None, None)),
    ];
    for (range, text, delim0, expected) in cases {
        assert_eq!(range.sub_delimited_tri(text, delim0, D2), Ok(expected));
    }
}

#[test]
fn ts_length_and_delimiter_errors() {
    assert_eq!(
        tr(0, tp(0, 0), 7, tp(0, 7)).sub_delimited("short", D1),
        Err(RangeError::TextRangeMismatch { text_len: 5, range_len: 7 }),
    );
    assert_eq!(
        tr(0, tp(0, 0), 7, tp(0, 7)).split_at("short", tp(0, 2)),
        Err(RangeError::TextRangeMismatch { text_len: 5, range_len: 7 }),
    );
    assert_eq!(
        tr(5, tp(0, 3), 12, tp(0, 10)).sub_delimited_tri("one/tw", D1, D2),
        Err(RangeError::TextRangeMismatch { text_len: 6, range_len: 7 }),
    );
    assert_eq!(
        tr(0, tp(0, 0), 9, tp(0, 9)).sub_delimited("one—two", '—'),
        Err(RangeError::DelimiterNotSingleByte { delimiter: '—' }),
    );
    assert_eq!(
        tr(5, tp(0, 3), 12, tp(0, 10)).split_at("one/two", tp(0, 2)),
        Ok((tr(5, tp(0, 3), 7, tp(0, 5)), tr(7, tp(0, 5), 12, tp(0, 10)))),
    );
    assert_eq!(
        tr(0, tp(0, 0), 5, tp(0, 5)).split_at("hello", tp(0, 9)),
        Err(RangeError::PositionOutOfRange),
    );
    assert_eq!(
        tr(0, tp(0, 0), 5, tp(0, 5)).split_at("hello", tp(2, 0)),
        Err(RangeError::PositionOutOfRange),
    );
}

#[test]
fn tri_splits_check_delimiters_and_emptiness_before_the_range() {
    let reversed = std::ops::Range { start: 10usize, end: 5 };
    assert_eq!(
        reversed.clone().sub_delimited_tri("abc", 'é', ','),
        Err(RangeError::DelimiterNotSingleByte { delimiter: 'é' }),
    );
    assert_eq!(reversed.sub_delimited_tri("", ',', ';'), Ok((None, None, None)));
}
