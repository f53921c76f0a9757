use async_language_server::server::ServerOptions;
use async_language_server::workspace::roots::{close_keeps_workspace, path_is_in_root, path_is_in_roots};
use async_language_server::workspace::WorkspaceDiagnosticsState;
use async_language_server::server::WorkspaceDiagnostics;

fn roots() -> Vec<String> {
    vec!["/ws/one".to_string(), "/srv/".to_string()]
}

#[test]
fn roots_contain_the_files_below_them_by_whole_components() {
    assert!(path_is_in_root("/ws/one/a.test", "/ws/one"));
    assert!(path_is_in_root("/ws/one", "/ws/one"));
    assert!(path_is_in_root("/srv/x/y.test", "/srv/"));
    assert!(!path_is_in_root("/ws/oneother/a.test", "/ws/one"), "a longer name is another directory");
    assert!(!path_is_in_root("/ws", "/ws/one"));
    assert!(!path_is_in_root("/elsewhere/a.test", "/ws/one"));

    assert!(path_is_in_roots("/srv/b.test", &roots()));
    assert!(!path_is_in_roots("/tmp/b.test", &roots()));
    assert!(!path_is_in_roots("/ws/one/a.test", &[]));
}

#[test]
fn closing_keeps_claimed_documents_in_the_roots_while_enabled() {
    let enabled = WorkspaceDiagnosticsState::new(&ServerOptions::default());
    assert!(enabled.enabled());
    assert!(close_keeps_workspace(&enabled, true, Some("/ws/one/a.test"), &roots()));
    assert!(!close_keeps_workspace(&enabled, false, Some("/ws/one/a.test"), &roots()), "not claimed");
    assert!(!close_keeps_workspace(&enabled, true, Some("/tmp/a.test"), &roots()), "outside the roots");
    assert!(!close_keeps_workspace(&enabled, true, None, &roots()), "no file behind the URL");

    let disabled = WorkspaceDiagnosticsState::new(
        &ServerOptions::default().with_workspace_diagnostics(WorkspaceDiagnostics::disabled()),
    );
    assert!(!close_keeps_workspace(&disabled, true, Some("/ws/one/a.test"), &roots()));
}
