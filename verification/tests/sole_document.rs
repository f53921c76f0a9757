//! Requests that name no document convert their positions against the sole
//! tracked document, and pass through unconverted when there is none.

use async_language_server::protocol::{LspPosition, LspRange};
use async_language_server::server::fallback::FallbackCache;
use async_language_server::server::store::{conversion_document, DocumentOrigin, DocumentStore};
use async_language_server::text_utils::conversion::position_to_encoding;
use async_language_server::text_utils::Encoding;
use ropey::Rope;

type Store = DocumentStore<Rope, ()>;

fn store_with(documents: &[(&str, &str)]) -> Store {
    let mut store = Store::new();
    for (name, text) in documents {
        store.insert_document(format!("file:///ws/{name}"), Rope::from_str(text), 1, DocumentOrigin::Open);
    }
    store
}

fn same_line(line: u32, start: u32, end: u32) -> LspRange {
    LspRange {
        start: LspPosition { line, character: start },
        end: LspPosition { line, character: end },
    }
}

/// Converts `range` against the document a URL-less request resolves to,
/// or leaves it as it is when none does.
fn convert(store: &Store, range: LspRange, from: Encoding, to: Encoding) -> LspRange {
    let fallback: FallbackCache<Rope> = FallbackCache::new();
    match conversion_document(store, &fallback, None) {
        Some(text) => LspRange {
            start: position_to_encoding(text, range.start, from, to),
            end: position_to_encoding(text, range.end, from, to),
        },
        None => range,
    }
}

/// What the handler receives of a client range, and what the client gets
/// back of the handler's answer.
fn drive_resolve(documents: &[(&str, &str)], client: LspRange) -> (Option<LspRange>, LspRange) {
    let store = store_with(documents);
    let received = convert(&store, client, Encoding::UTF16, Encoding::UTF8);
    let returned = convert(&store, received, Encoding::UTF8, Encoding::UTF16);
    (Some(received), returned)
}

/// What the client gets of a handler's UTF-8 answer to a URL-less request.
fn drive_url_less(documents: &[(&str, &str)]) -> LspRange {
    let store = store_with(documents);
    convert(&store, same_line(0, 4, 4), Encoding::UTF8, Encoding::UTF16)
}

#[test]
fn link_resolve_converts_against_the_sole_tracked_document() {
    let (received, returned) = drive_resolve(&[("only.txt", "🙂abc")], same_line(0, 2, 2));

    assert_eq!(received, Some(same_line(0, 4, 4)));
    assert_eq!(returned, same_line(0, 2, 2));
}

#[test]
fn link_resolve_skips_conversion_without_a_sole_document() {
    let (received, returned) =
        drive_resolve(&[("a.txt", "🙂abc"), ("b.txt", "🙂🙂")], same_line(0, 2, 2));

    assert_eq!(received, Some(same_line(0, 2, 2)));
    assert_eq!(returned, same_line(0, 2, 2));
}

#[test]
fn url_less_response_converts_against_sole_document() {
    assert_eq!(drive_url_less(&[("edit.txt", "🙂abc")]), same_line(0, 2, 2));
}

#[test]
fn url_less_passes_through_without_sole_document() {
    assert_eq!(drive_url_less(&[]), same_line(0, 4, 4));

    assert_eq!(drive_url_less(&[("a.txt", "🙂abc"), ("b.txt", "🙂🙂")]), same_line(0, 4, 4));
}
