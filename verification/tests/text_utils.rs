use async_language_server::protocol::LspPosition;
use async_language_server::server::documents::edit_new_end;
use async_language_server::syntax::TsPoint;
use async_language_server::text_utils::strings::str_equal;
use async_language_server::text_utils::text_model::{
    char_len_utf8, locate_char, locate_point, text_len,
};
use async_language_server::text_utils::{Encoding, Position};

#[test]
fn try_from_lsp_returns_none_for_unknown_kinds() {
    assert_eq!(Encoding::try_from_name("utf-7"), None);
    assert_eq!(Encoding::try_from_name("utf-8"), Some(Encoding::UTF8));
    assert_eq!(Encoding::try_from_name("utf-16"), Some(Encoding::UTF16));
    assert_eq!(Encoding::try_from_name("utf-32"), Some(Encoding::UTF32));
}

#[test]
fn encoding_names_round_trip() {
    for encoding in [Encoding::UTF8, Encoding::UTF16, Encoding::UTF32] {
        assert_eq!(Encoding::try_from_name(encoding.as_str()), Some(encoding));
        assert_eq!(Encoding::from_name(encoding.as_str()), encoding);
    }
    assert_eq!(Encoding::UTF8.as_str(), "utf-8");
    assert_eq!(Encoding::UTF16.as_str(), "utf-16");
    assert_eq!(Encoding::UTF32.as_str(), "utf-32");
    assert_eq!(Encoding::default(), Encoding::UTF16);
    assert_eq!(Encoding::try_from_name("UTF-8"), None, "names are case-sensitive");
    assert_eq!(Encoding::try_from_name(""), None);
}

#[test]
fn positions_convert_between_coordinate_systems() {
    let lsp = LspPosition { line: 3, character: 7 };
    let position = Position::from_lsp(lsp);
    assert_eq!(position, Position { line: 3, col: 7 });
    assert_eq!(position.into_lsp(), lsp);
    let point = position.into_ts();
    assert_eq!(point, TsPoint { row: 3, column: 7 });
    assert_eq!(Position::from_ts(point), position);
}

#[test]
fn oversized_positions_keep_their_low_bits() {
    let big = Position { line: (u32::MAX as usize) + 2, col: 5 };
    assert_eq!(big.into_lsp(), LspPosition { line: 1, character: 5 });
}

#[test]
fn string_equality_compares_characters() {
    assert!(str_equal("hover", "hover"));
    assert!(!str_equal("hover", "hove"));
    assert!(!str_equal("a", "b"));
    assert!(str_equal("", ""));
    assert!(str_equal("ü🙂", "ü🙂"));
}

#[test]
fn text_measures_count_bytes() {
    assert_eq!(char_len_utf8('a'), 1);
    assert_eq!(char_len_utf8('ü'), 2);
    assert_eq!(char_len_utf8('€'), 3);
    assert_eq!(char_len_utf8('🙂'), 4);
    assert_eq!(text_len("aü€🙂"), 10);
    assert_eq!(text_len(""), 0);
}

#[test]
fn locate_char_reports_offsets_lines_and_columns() {
    let found = locate_char("ab\nü/x", '/').expect("the delimiter is present");
    assert_eq!(found.byte_offset, 5);
    assert_eq!(found.char_index, 4);
    assert_eq!(found.line, 1);
    assert_eq!(found.byte_column, 2);
    assert_eq!(found.char_column, 1);
    assert!(locate_char("abc", '/').is_none());
    let first = locate_char("a/b/c", '/').expect("present");
    assert_eq!(first.char_index, 1, "the first occurrence is reported");
}

#[test]
fn locate_point_finds_byte_offsets_of_points() {
    let text = "ab\nüc\n";
    assert_eq!(locate_point(text, 0, 0), Some(0));
    assert_eq!(locate_point(text, 0, 2), Some(2));
    assert_eq!(locate_point(text, 1, 0), Some(3));
    assert_eq!(locate_point(text, 1, 2), Some(5));
    assert_eq!(locate_point(text, 1, 1), None, "a column inside a character is never reached");
    assert_eq!(locate_point(text, 2, 0), Some(7));
    assert_eq!(locate_point(text, 3, 0), None);
}

#[test]
fn tree_sitter_edit_computes_new_end_from_inserted_text() {
    // Single-line insertion: the column advances by the inserted bytes.
    let (end_byte, end) = edit_new_end(10, TsPoint { row: 2, column: 4 }, "héllo");
    assert_eq!(end_byte, 16);
    assert_eq!(end, TsPoint { row: 2, column: 10 });

    // Multi-line insertion: rows advance, the column restarts after the
    // last newline.
    let (end_byte, end) = edit_new_end(10, TsPoint { row: 2, column: 4 }, "a\nbc\nü");
    assert_eq!(end_byte, 17);
    assert_eq!(end, TsPoint { row: 4, column: 2 });

    // A deletion inserts nothing: the new end is the start.
    let (end_byte, end) = edit_new_end(10, TsPoint { row: 2, column: 4 }, "");
    assert_eq!(end_byte, 10);
    assert_eq!(end, TsPoint { row: 2, column: 4 });

    // A trailing newline ends at column zero of the next row.
    let (_, end) = edit_new_end(0, TsPoint { row: 0, column: 9 }, "x\n");
    assert_eq!(end, TsPoint { row: 1, column: 0 });
}
