use async_language_server::protocol::{LspPosition, LspRange};
use async_language_server::syntax::{SyntaxTree, TsPoint, TsRange};
use async_language_server::text_utils::Position;
use async_language_server::tree_sitter_utils::{
    find_ancestor, find_child, find_descendant, find_nearest, lsp_position_to_ts_point,
    ts_point_to_lsp_position, ts_range_contains_lsp_position, ts_range_contains_ts_point,
    ts_range_to_lsp_range,
};

fn p(row: usize, column: usize) -> TsPoint {
    TsPoint { row, column }
}

fn r(start_point: TsPoint, end_point: TsPoint) -> TsRange {
    TsRange { start_byte: 0, end_byte: 0, start_point, end_point }
}

fn span(start: usize, end: usize) -> TsRange {
    TsRange { start_byte: start, end_byte: end, start_point: p(0, start), end_point: p(0, end) }
}

/// The syntax tree of `{"aa": 1, "b": 2}` under the JSON grammar, node by
/// node in the order a pre-order walk meets them, with each node's kind.
struct JsonFixture {
    tree: SyntaxTree,
    kinds: Vec<&'static str>,
    document: usize,
    object: usize,
    pair: usize,
    string: usize,
    number: usize,
    second_pair: usize,
    other_string: usize,
}

fn json_tree() -> JsonFixture {
    let mut tree = SyntaxTree::new();
    let mut kinds = Vec::new();
    let mut add = |tree: &mut SyntaxTree, parent: Option<usize>, kind: &'static str, range: TsRange| {
        kinds.push(kind);
        tree.add_node(parent, range)
    };
    let document = add(&mut tree, None, "document", span(0, 17));
    let object = add(&mut tree, Some(document), "object", span(0, 17));
    add(&mut tree, Some(object), "{", span(0, 1));
    let pair = add(&mut tree, Some(object), "pair", span(1, 8));
    let string = add(&mut tree, Some(pair), "string", span(1, 5));
    add(&mut tree, Some(string), "\"", span(1, 2));
    add(&mut tree, Some(string), "string_content", span(2, 4));
    add(&mut tree, Some(string), "\"", span(4, 5));
    add(&mut tree, Some(pair), ":", span(5, 6));
    let number = add(&mut tree, Some(pair), "number", span(7, 8));
    add(&mut tree, Some(object), ",", span(8, 9));
    let second_pair = add(&mut tree, Some(object), "pair", span(10, 16));
    let other_string = add(&mut tree, Some(second_pair), "string", span(10, 13));
    add(&mut tree, Some(other_string), "\"", span(10, 11));
    add(&mut tree, Some(other_string), "string_content", span(11, 12));
    add(&mut tree, Some(other_string), "\"", span(12, 13));
    add(&mut tree, Some(second_pair), ":", span(13, 14));
    add(&mut tree, Some(second_pair), "number", span(15, 16));
    add(&mut tree, Some(object), "}", span(16, 17));
    JsonFixture { tree, kinds, document, object, pair, string, number, second_pair, other_string }
}

#[test]
fn range_contains_multiline_points_lexicographically() {
    let range = r(p(1, 5), p(3, 2));

    assert!(ts_range_contains_ts_point(range, p(1, 5)));
    assert!(ts_range_contains_ts_point(range, p(2, 0)));
    assert!(ts_range_contains_ts_point(range, p(3, 2)));
    assert!(!ts_range_contains_ts_point(range, p(1, 4)));
    assert!(!ts_range_contains_ts_point(range, p(3, 3)));
}

#[test]
fn ts_point_and_range_convert_to_lsp_coordinates() {
    let point = LspPosition { line: 1, character: 5 };
    assert_eq!(ts_point_to_lsp_position(p(1, 5)), point);

    let expected = LspRange {
        start: LspPosition { line: 1, character: 5 },
        end: LspPosition { line: 3, character: 2 },
    };
    assert_eq!(ts_range_to_lsp_range(r(p(1, 5), p(3, 2))), expected);
}

#[test]
fn lsp_position_containment_matches_ts_point_containment() {
    let range = r(p(1, 5), p(3, 2));
    let inside = LspPosition { line: 2, character: 0 };
    let start = LspPosition { line: 1, character: 5 };
    let end = LspPosition { line: 3, character: 2 };
    let before = LspPosition { line: 1, character: 4 };
    let after = LspPosition { line: 3, character: 3 };

    for pos in [inside, start, before, after] {
        assert_eq!(
            ts_range_contains_lsp_position(range, pos),
            ts_range_contains_ts_point(range, lsp_position_to_ts_point(pos)),
            "LSP containment must match point containment at {pos:?}",
        );
    }

    assert!(ts_range_contains_lsp_position(range, start));
    assert!(ts_range_contains_lsp_position(range, end));
    assert!(!ts_range_contains_lsp_position(range, before));
    assert!(!ts_range_contains_lsp_position(range, after));
}

#[test]
fn oversized_points_saturate_in_lsp_coordinates() {
    let big = p(usize::MAX, (u32::MAX as usize) + 7);
    assert_eq!(ts_point_to_lsp_position(big), LspPosition { line: u32::MAX, character: u32::MAX });
    assert_eq!(lsp_position_to_ts_point(LspPosition { line: 4, character: 9 }), p(4, 9));
}

#[test]
fn find_child_ancestor_descendant_traverse_as_documented() {
    let f = json_tree();
    let kinds = &f.kinds;
    let is = |kind: &'static str| move |n: usize| kinds[n] == kind;

    assert_eq!(find_child(&f.tree, f.document, is("object")), Some(f.object));
    assert_eq!(
        find_child(&f.tree, f.document, is("pair")),
        None,
        "pairs are grandchildren of the document node",
    );

    assert_eq!(find_ancestor(&f.tree, f.string, is("pair")), Some(f.pair));
    assert_eq!(find_ancestor(&f.tree, f.pair, is("document")), Some(f.document));
    assert_eq!(find_ancestor(&f.tree, f.document, |_| true), None, "the root has no ancestors");

    assert_eq!(find_descendant(&f.tree, f.document, is("pair")), Some(f.pair));
    assert_eq!(find_descendant(&f.tree, f.pair, is("number")), Some(f.number));
    assert_eq!(
        find_descendant(&f.tree, f.string, is("number")),
        None,
        "a string has no numeric descendants",
    );
}

#[test]
fn find_nearest_prefers_node_then_child_then_descendant_then_ancestor() {
    let f = json_tree();
    let kinds = &f.kinds;
    let at = |col: usize| Position { line: 0, col };

    // 1. The node itself wins when it matches, over any matching child.
    assert_eq!(find_nearest(&f.tree, f.object, at(2), |n| kinds[n] == "object"), Some(f.object));
    assert_eq!(
        find_nearest(&f.tree, f.object, at(2), |_| true),
        Some(f.object),
        "the containing node beats a matching child",
    );

    // 2. Otherwise a position-containing direct child, over a matching
    //    deeper descendant.
    assert_eq!(
        find_nearest(&f.tree, f.object, at(2), |n| kinds[n] != "object"),
        Some(f.pair),
        "the containing child beats a matching descendant",
    );

    // 3. Otherwise a position-containing descendant.
    assert_eq!(find_nearest(&f.tree, f.object, at(2), |n| kinds[n] == "string"), Some(f.string));

    // 4. Otherwise an ancestor.
    assert_eq!(
        find_nearest(&f.tree, f.other_string, at(15), |n| kinds[n] == "object"),
        Some(f.object),
    );
    let _ = f.second_pair;
}

#[test]
fn find_descendant_searches_breadth_first() {
    let f = json_tree();
    let kinds = &f.kinds;
    // Both pairs hold a string; the first pair's string is met first, and a
    // string (depth 3) is met before a string_content (depth 4).
    assert_eq!(find_descendant(&f.tree, f.object, |n| kinds[n] == "string"), Some(f.string));
    assert_eq!(
        find_descendant(&f.tree, f.object, |n| kinds[n] == "string" || kinds[n] == "string_content"),
        Some(f.string),
    );
    assert_eq!(
        find_descendant(&f.tree, f.object, |n| n == f.object),
        Some(f.object),
        "the node itself is met first",
    );
}

#[test]
fn syntax_tree_records_parents_children_and_ranges() {
    let f = json_tree();
    assert_eq!(f.tree.len(), f.kinds.len());
    assert_eq!(f.tree.parent(f.document), None);
    assert_eq!(f.tree.parent(f.pair), Some(f.object));
    assert_eq!(f.tree.children(f.pair).len(), 3);
    assert_eq!(f.tree.children(f.pair)[0], f.string);
    assert_eq!(f.tree.range(f.number), span(7, 8));
}
