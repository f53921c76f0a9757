use async_language_server::workspace::reports::{
    collect_workspace_reports, document_result_sink, WorkspaceReportSink,
};

#[test]
fn push_workspace_report_replaces_by_uri_and_appends_new() {
    let mut sink = WorkspaceReportSink::new();
    let uri = "file:///tmp/a.txt";
    sink.push(uri.to_string(), "unchanged", false);
    sink.push(uri.to_string(), "full", true);
    let other = "file:///tmp/b.txt";
    sink.push(other.to_string(), "full", false);
    sink.push(uri.to_string(), "full-again", false);
    // replace=true overwrote the first URI; the new URI appended; the
    // `replace=false` push over the already-present `uri` changed nothing.
    assert_eq!(sink.len(), 2);
    assert_eq!(
        sink.into_entries(),
        vec![
            (uri.to_string(), "full", true),
            (other.to_string(), "full", false),
        ],
    );
}

#[test]
fn related_reports_merge_with_replace_false() {
    let main_uri = "file:///tmp/related-main.diag";
    let other_uri = "file:///tmp/related-other.diag";
    let mut sink = WorkspaceReportSink::new();
    sink.push(main_uri.to_string(), "main", true);

    sink.push_related(vec![
        (main_uri.to_string(), "related"),
        (other_uri.to_string(), "related-unchanged"),
    ]);

    assert_eq!(sink.len(), 2, "both related reports merged in");
    for (uri, report, replace) in sink.into_entries() {
        if uri == main_uri {
            assert_eq!(report, "main", "a related report must not replace a main-document report");
            assert!(replace, "the main report keeps its replace flag");
        } else {
            assert_eq!(uri, other_uri);
            assert_eq!(report, "related-unchanged");
            assert!(!replace, "related reports merge with replace = false");
        }
    }
}

#[test]
fn into_reports_keeps_insertion_order() {
    let mut sink = WorkspaceReportSink::new();
    sink.push("file:///z".to_string(), 1, false);
    sink.push("file:///a".to_string(), 2, false);
    sink.push("file:///m".to_string(), 3, true);
    sink.push("file:///a".to_string(), 4, true);
    assert_eq!(sink.into_reports(), vec![1, 4, 3]);
}

#[test]
fn an_empty_sink_has_no_reports() {
    let sink: WorkspaceReportSink<u8> = WorkspaceReportSink::new();
    assert_eq!(sink.len(), 0);
    assert!(sink.into_reports().is_empty());
}

#[test]
fn related_reports_never_overwrite_each_other() {
    let mut sink = WorkspaceReportSink::new();
    sink.push_related(vec![
        ("file:///x".to_string(), "first"),
        ("file:///x".to_string(), "second"),
    ]);
    assert_eq!(sink.into_entries(), vec![("file:///x".to_string(), "first", false)]);
}

#[test]
fn collected_reports_replay_each_sink_and_sort_by_uri() {

    // Two documents' results, each with a related report for the other.
    let first = document_result_sink(
        "file:///b".to_string(),
        Some("b-main"),
        vec![("file:///a".to_string(), "a-related")],
    );
    let second = document_result_sink(
        "file:///a".to_string(),
        Some("a-main"),
        vec![("file:///b".to_string(), "b-related"), ("file:///c".to_string(), "c-related")],
    );
    let collected = collect_workspace_reports(vec![first, second]);
    assert_eq!(
        collected,
        vec![
            ("file:///a".to_string(), "a-main"),
            ("file:///b".to_string(), "b-main"),
            ("file:///c".to_string(), "c-related"),
        ],
        "a main report replaces a related one; a related one never replaces",
    );
}

#[test]
fn a_partial_result_contributes_only_related_reports() {
    let sink = document_result_sink("file:///x".to_string(), None, vec![("file:///y".to_string(), 1)]);
    assert_eq!(sink.into_entries(), vec![("file:///y".to_string(), 1, false)]);
}
