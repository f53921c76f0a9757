use async_language_server::protocol::{LspPosition, LspRange};
use async_language_server::server::edits::{apply_content_changes, ContentChange, TreeEdit, TreeStep};
use async_language_server::syntax::TsPoint;
use async_language_server::text_utils::Encoding;
use ropey::Rope;

fn range(sl: u32, sc: u32, el: u32, ec: u32) -> Option<LspRange> {
    Some(LspRange {
        start: LspPosition { line: sl, character: sc },
        end: LspPosition { line: el, character: ec },
    })
}

fn change(range: Option<LspRange>, text: &str) -> ContentChange {
    ContentChange { range, text: text.to_string() }
}

fn apply(text: &str, changes: Vec<ContentChange>, encoding: Encoding) -> (String, Vec<TreeStep>, bool) {
    let outcome = apply_content_changes(Rope::from_str(text), changes, encoding);
    (outcome.text.to_string(), outcome.tree_steps, outcome.failed)
}

#[test]
fn full_content_change_replaces_document_text() {
    let (text, steps, failed) = apply("old", vec![change(None, "new")], Encoding::UTF16);
    assert_eq!(text, "new");
    assert!(!failed);
    assert_eq!(steps.len(), 1);
    match &steps[0] {
        TreeStep::Reparse(rope) => assert_eq!(rope.to_string(), "new"),
        TreeStep::Edit(_) => panic!("a full change parses afresh"),
    }
}

#[test]
fn incremental_changes_apply_in_order() {
    let changes = vec![
        change(range(0, 6, 0, 7), "{}"),
        change(range(0, 0, 0, 0), "x"),
    ];
    let (text, steps, failed) = apply(r#"{"a": 1}"#, changes, Encoding::UTF8);
    assert_eq!(text, r#"x{"a": {}}"#);
    assert!(!failed);
    assert_eq!(steps.len(), 2);
}

#[test]
fn tree_edits_describe_each_replacement_in_bytes() {
    let (_, steps, _) = apply("ab\ncd", vec![change(range(1, 1, 1, 2), "é\nz")], Encoding::UTF8);
    match &steps[0] {
        TreeStep::Edit(edit) => assert_eq!(
            *edit,
            TreeEdit {
                start_byte: 4,
                old_end_byte: 5,
                new_end_byte: 8,
                start_position: TsPoint { row: 1, column: 1 },
                old_end_position: TsPoint { row: 1, column: 2 },
                new_end_position: TsPoint { row: 2, column: 1 },
            },
        ),
        TreeStep::Reparse(_) => panic!("a ranged change edits the tree"),
    }
}

#[test]
fn failed_incremental_change_keeps_the_changes_before_it() {
    let changes = vec![
        change(range(0, 6, 0, 7), "{}"),
        change(range(50, 0, 50, 1), "x"),
        change(range(0, 0, 0, 0), "never"),
    ];
    let (text, steps, failed) = apply(r#"{"a": 1}"#, changes, Encoding::UTF16);
    assert!(failed, "an out-of-bounds line fails the batch");
    assert_eq!(text, r#"{"a": {}}"#);
    assert_eq!(steps.len(), 1);
}

#[test]
fn columns_count_in_the_negotiated_encoding() {
    // "🙂" takes 4 UTF-8 bytes, 2 UTF-16 units and 1 UTF-32 unit.
    let base = "🙂ab";
    assert_eq!(apply(base, vec![change(range(0, 4, 0, 5), "X")], Encoding::UTF8).0, "🙂Xb");
    assert_eq!(apply(base, vec![change(range(0, 2, 0, 3), "X")], Encoding::UTF16).0, "🙂Xb");
    assert_eq!(apply(base, vec![change(range(0, 1, 0, 2), "X")], Encoding::UTF32).0, "🙂Xb");
    // A column inside a character stops before it.
    assert_eq!(apply(base, vec![change(range(0, 1, 0, 1), "X")], Encoding::UTF16).0, "X🙂ab");
}

#[test]
fn columns_past_the_line_end_clamp_to_it() {
    let (text, _, failed) = apply("ab\ncd", vec![change(range(0, 99, 0, 99), "!")], Encoding::UTF16);
    assert!(!failed);
    assert_eq!(text, "ab!\ncd");
    let (text, _, _) = apply("ab\r\ncd", vec![change(range(0, 99, 1, 0), "")], Encoding::UTF16);
    assert_eq!(text, "abcd", "the line break belongs to the line it ends");
}

#[test]
fn the_line_after_the_last_is_the_end_of_the_text() {
    let (text, _, failed) = apply("ab\n", vec![change(range(1, 0, 2, 0), "z")], Encoding::UTF16);
    assert!(!failed);
    assert_eq!(text, "ab\nz");
    let (_, _, failed) = apply("ab\n", vec![change(range(3, 0, 3, 0), "z")], Encoding::UTF16);
    assert!(failed, "two lines past the last cannot be resolved");
}

#[test]
fn reversed_ranges_insert_at_the_start() {
    let (text, _, _) = apply("abcdef", vec![change(range(0, 4, 0, 1), "X")], Encoding::UTF16);
    assert_eq!(text, "abcdXef");
}

#[test]
fn unicode_line_breaks_separate_lines() {
    let (text, _, _) = apply("a\u{2028}b", vec![change(range(1, 0, 1, 1), "c")], Encoding::UTF16);
    assert_eq!(text, "a\u{2028}c");
}

#[test]
fn one_batch_equals_two_batches() {
    let start = "fn main() {\n    let x = 1;\n}\n";
    let first = || vec![change(range(1, 8, 1, 9), "value")];
    let rest = || vec![change(range(1, 16, 1, 17), "42"), change(range(0, 3, 0, 7), "start")];

    let mut together = first();
    together.extend(rest());
    let (whole, whole_steps, whole_failed) = apply(start, together, Encoding::UTF8);

    let (middle, first_steps, _) = apply(start, first(), Encoding::UTF8);
    let (split, rest_steps, split_failed) = apply(&middle, rest(), Encoding::UTF8);

    assert_eq!(whole, split);
    assert_eq!(whole, "fn start() {\n    let value = 42;\n}\n");
    assert_eq!(whole_failed, split_failed);
    assert_eq!(whole_steps.len(), first_steps.len() + rest_steps.len());
}

#[test]
fn a_range_replaces_the_same_characters_in_every_encoding() {
    let start = "a🙂b\ncé d";
    let in_utf8 = apply(start, vec![change(range(0, 1, 1, 2), "X")], Encoding::UTF8).0;
    let in_utf16 = apply(start, vec![change(range(0, 1, 1, 1), "X")], Encoding::UTF16).0;
    assert_eq!(in_utf8, "aXé d");
    assert_eq!(in_utf16, "aXé d");
    let after_emoji_utf8 = apply(start, vec![change(range(0, 5, 0, 6), "Y")], Encoding::UTF8).0;
    let after_emoji_utf16 = apply(start, vec![change(range(0, 3, 0, 4), "Y")], Encoding::UTF16).0;
    let after_emoji_utf32 = apply(start, vec![change(range(0, 2, 0, 3), "Y")], Encoding::UTF32).0;
    assert_eq!(after_emoji_utf8, "a🙂Y\ncé d");
    assert_eq!(after_emoji_utf16, after_emoji_utf8);
    assert_eq!(after_emoji_utf32, after_emoji_utf8);
}

#[test]
fn a_final_parse_is_due_after_a_whole_batch_that_edited_the_tree() {
    let edited = apply_content_changes(Rope::from_str("abc"), vec![change(range(0, 1, 0, 2), "X")], Encoding::UTF16);
    assert!(edited.final_parse_due());

    let replaced = apply_content_changes(Rope::from_str("abc"), vec![change(None, "new")], Encoding::UTF16);
    assert!(!replaced.final_parse_due(), "a fresh parse needs no second one");

    let failed = apply_content_changes(
        Rope::from_str("abc"),
        vec![change(range(0, 1, 0, 2), "X"), change(range(50, 0, 50, 1), "Y")],
        Encoding::UTF16,
    );
    assert!(failed.failed);
    assert!(!failed.final_parse_due(), "a failed batch is settled instead");
}
