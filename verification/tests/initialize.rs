use async_language_server::server::capabilities::{
    DiagnosticProvider, ServerCapabilities, SimpleOrOptions, TextDocumentSync,
};
use async_language_server::server::initialize::{initialize, negotiate_position_encoding};
use async_language_server::server::options::{ConfigurationKey, WorkspaceDiagnostics};
use async_language_server::server::settings::SettingsValue;
use async_language_server::server::store::{DocumentOrigin, DocumentStore};
use async_language_server::server::ServerOptions;
use async_language_server::text_utils::Encoding;
use async_language_server::workspace::diagnostics::ClientCapabilities;
use async_language_server::workspace::WorkspaceDiagnosticsState;

fn names(kinds: &[&str]) -> Vec<String> {
    kinds.iter().map(|k| k.to_string()).collect()
}

fn no_client() -> ClientCapabilities {
    ClientCapabilities { workspace: None }
}

#[test]
fn initialize_ignores_unknown_client_encodings() {
    assert_eq!(negotiate_position_encoding(&names(&["utf-7", "latin-1"])), Encoding::UTF16);
    assert_eq!(negotiate_position_encoding(&[]), Encoding::UTF16);
}

#[test]
fn initialize_prefers_utf8_when_the_client_offers_it() {
    assert_eq!(negotiate_position_encoding(&names(&["utf-16", "utf-32", "utf-8"])), Encoding::UTF8);
    assert_eq!(negotiate_position_encoding(&names(&["utf-8"])), Encoding::UTF8);
}

#[test]
fn initialize_prefers_utf32_over_utf16() {
    assert_eq!(negotiate_position_encoding(&names(&["utf-16", "utf-32"])), Encoding::UTF32);
    assert_eq!(negotiate_position_encoding(&names(&["utf-16"])), Encoding::UTF16);
}

#[test]
fn initialize_installs_the_framework_capabilities() {
    let mut state = WorkspaceDiagnosticsState::new(&ServerOptions::default());
    let mut store: DocumentStore<String, ()> = DocumentStore::new();
    let capabilities = ServerCapabilities {
        hover_provider: Some(SimpleOrOptions::Simple(true)),
        text_document_sync: Some(TextDocumentSync::Options { will_save_wait_until: Some(true) }),
        diagnostic_provider: Some(DiagnosticProvider::Options { workspace_diagnostics: false }),
        ..ServerCapabilities::default()
    };
    let result = initialize(&mut state, &mut store, capabilities, &no_client(), None, &names(&["utf-32"]));

    assert_eq!(result.position_encoding, Encoding::UTF32);
    assert_eq!(result.capabilities.position_encoding, Some(Encoding::UTF32));
    assert_eq!(result.capabilities.text_document_sync, Some(TextDocumentSync::Framework));
    assert_eq!(
        result.capabilities.diagnostic_provider,
        Some(DiagnosticProvider::Options { workspace_diagnostics: true }),
        "initialize enables workspace diagnostics",
    );
    assert!(state.enabled());
    assert!(result.inventory.advertised("hover"));
    assert!(
        !result.inventory.advertised("will_save_wait_until"),
        "the framework's sync options replace the implementor's",
    );
}

#[test]
fn initialize_respects_disabled_workspace_diagnostics() {
    let mut state = WorkspaceDiagnosticsState::new(
        &ServerOptions::default().with_workspace_diagnostics(WorkspaceDiagnostics::disabled()),
    );
    let mut store: DocumentStore<String, ()> = DocumentStore::new();
    let capabilities = ServerCapabilities {
        diagnostic_provider: Some(DiagnosticProvider::Options { workspace_diagnostics: true }),
        ..ServerCapabilities::default()
    };
    let result = initialize(&mut state, &mut store, capabilities, &no_client(), None, &[]);
    assert_eq!(
        result.capabilities.diagnostic_provider,
        Some(DiagnosticProvider::Options { workspace_diagnostics: false }),
    );
    assert!(!state.supported());
    assert_eq!(result.position_encoding, Encoding::UTF16);
}

#[test]
fn configurable_workspace_diagnostics_read_initialization_options() {
    let options = ServerOptions::default().with_workspace_diagnostics(WorkspaceDiagnostics::from(
        WorkspaceDiagnostics::setting(ConfigurationKey::new("test.workspaceDiagnostics")),
    ));
    let mut state = WorkspaceDiagnosticsState::new(&options);
    let mut store: DocumentStore<String, ()> = DocumentStore::new();
    store.insert_document("file:///ws/a".to_string(), "a".to_string(), 0, DocumentOrigin::Workspace);
    let init = SettingsValue::Object(vec![(
        "test.workspaceDiagnostics".to_string(),
        SettingsValue::Bool(false),
    )]);
    let capabilities = ServerCapabilities {
        diagnostic_provider: Some(DiagnosticProvider::Options { workspace_diagnostics: false }),
        ..ServerCapabilities::default()
    };
    let result = initialize(&mut state, &mut store, capabilities, &no_client(), Some(&init), &[]);
    assert!(state.supported());
    assert!(!state.enabled(), "the initialization options turned them off");
    assert!(store.document("file:///ws/a").is_none(), "workspace documents go with them");
    assert_eq!(
        result.capabilities.diagnostic_provider,
        Some(DiagnosticProvider::Options { workspace_diagnostics: true }),
        "a configurable exposure still advertises the capability",
    );
}
