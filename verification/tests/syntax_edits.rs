//! The tree steps of a change keep a tree-sitter tree coherent with the
//! edited text.

use async_language_server::protocol::{LspPosition, LspRange};
use async_language_server::server::edits::{apply_content_changes, ContentChange, TreeEdit, TreeStep};
use async_language_server::server::store::{DocumentOrigin, DocumentStore};
use async_language_server::syntax::TsPoint;
use async_language_server::text_utils::Encoding;
use ropey::Rope;
use tree_sitter::{InputEdit, Node, Parser, Point, Tree};

fn json_parser() -> Parser {
    let mut parser = Parser::new();
    parser.set_language(&tree_sitter_json::LANGUAGE.into()).expect("the JSON grammar loads");
    parser
}

fn point(p: TsPoint) -> Point {
    Point { row: p.row, column: p.column }
}

fn input_edit(edit: TreeEdit) -> InputEdit {
    InputEdit {
        start_byte: edit.start_byte,
        old_end_byte: edit.old_end_byte,
        new_end_byte: edit.new_end_byte,
        start_position: point(edit.start_position),
        old_end_position: point(edit.old_end_position),
        new_end_position: point(edit.new_end_position),
    }
}

fn count_kind(node: Node, kind: &str) -> usize {
    let mut count = usize::from(node.kind() == kind);
    for i in 0..node.child_count() {
        if let Some(child) = node.child(i) {
            count += count_kind(child, kind);
        }
    }
    count
}

#[test]
fn incremental_did_change_updates_the_syntax_tree() {
    let before = r#"{"a": 1}"#;
    let mut parser = json_parser();
    let mut tree = parser.parse(before, None).expect("the text parses");

    let at = LspPosition { line: 0, character: 7 };
    let outcome = apply_content_changes(
        Rope::from_str(before),
        vec![ContentChange { range: Some(LspRange { start: at, end: at }), text: r#", "b": 2"#.into() }],
        Encoding::UTF16,
    );
    assert!(!outcome.failed);
    let text = outcome.text.to_string();
    assert_eq!(text, r#"{"a": 1, "b": 2}"#);

    for step in outcome.tree_steps {
        match step {
            TreeStep::Edit(edit) => tree.edit(&input_edit(edit)),
            TreeStep::Reparse(_) => panic!("a ranged change edits the tree in place"),
        }
    }
    let tree = parser.parse(&text, Some(&tree)).expect("the edited text parses");
    assert_eq!(count_kind(tree.root_node(), "pair"), 2, "the re-parsed tree sees the inserted pair");
}

#[test]
fn document_clones_keep_their_snapshot_across_changes() {
    let mut store: DocumentStore<Rope, ()> = DocumentStore::new();
    let uri = "file:///ws/snapshot.txt";
    store.insert_document(uri.to_string(), Rope::from_str("before"), 1, DocumentOrigin::Open);

    let before = store.document(uri).cloned().expect("document is tracked");
    let text_before = before.to_string();

    let outcome = apply_content_changes(
        before.clone(),
        vec![ContentChange { range: None, text: "completely new contents".into() }],
        Encoding::UTF16,
    );
    assert!(store.change_document(uri, 2, outcome.text));

    let after = store.document(uri).expect("document still tracked");
    assert_eq!(before.to_string(), text_before);
    assert_eq!(store.document_version(uri), Some(2));
    assert_ne!(after.to_string(), text_before);
}

fn ranged(sl: u32, sc: u32, el: u32, ec: u32, text: &str) -> ContentChange {
    ContentChange {
        range: Some(LspRange {
            start: LspPosition { line: sl, character: sc },
            end: LspPosition { line: el, character: ec },
        }),
        text: text.into(),
    }
}

#[test]
fn failed_incremental_change_reparses_kept_text_tree() {
    let before = r#"{"a": 1}"#;
    let mut parser = json_parser();
    let uri = "file:///ws/missing.json";
    let mut store: DocumentStore<(Rope, Tree), ()> = DocumentStore::new();
    let tree = parser.parse(before, None).expect("the text parses");
    store.insert_document(uri.to_string(), (Rope::from_str(before), tree), 1, DocumentOrigin::Open);

    let (text, mut tree) = store.document(uri).cloned().expect("document is tracked");
    let outcome = apply_content_changes(
        text,
        vec![ranged(0, 6, 0, 7, "{}"), ranged(50, 0, 50, 1, "x")],
        Encoding::UTF16,
    );
    assert!(outcome.failed, "the line past the text fails the batch");
    for step in outcome.tree_steps {
        if let TreeStep::Edit(edit) = step {
            tree.edit(&input_edit(edit));
        }
    }
    assert!(store.change_document(uri, 2, (outcome.text.clone(), tree)));

    // The file was never written, so it cannot be read again: the applied
    // prefix stays, with its tree parsed afresh.
    let kept_tree = parser.parse(outcome.text.to_string(), None).expect("the kept text parses");
    assert!(store.settle_failed_change(uri, 2, None, (outcome.text, kept_tree)));

    let (text, tree) = store.document(uri).expect("document stays tracked");
    assert_eq!(text.to_string(), r#"{"a": {}}"#);
    assert_eq!(count_kind(tree.root_node(), "number"), 0, "no stale number node");
    assert_eq!(store.document_version(uri), Some(2));
}

#[test]
fn failed_incremental_change_keeps_document_when_reread_fails() {
    let uri = "file:///ws/missing.test";
    let mut store: DocumentStore<Rope, ()> = DocumentStore::new();
    store.insert_document(uri.to_string(), Rope::from_str("original"), 1, DocumentOrigin::Open);

    let text = store.document(uri).cloned().expect("document is tracked");
    let outcome = apply_content_changes(text, vec![ranged(50, 0, 50, 1, "x")], Encoding::UTF16);
    assert!(outcome.failed);
    assert!(store.change_document(uri, 2, outcome.text.clone()));
    assert!(store.settle_failed_change(uri, 2, None, outcome.text));

    let document = store.document(uri).expect("document stays tracked");
    assert_eq!(document.to_string(), "original");
}
