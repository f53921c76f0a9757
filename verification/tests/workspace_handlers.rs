use async_language_server::server::capabilities::{DiagnosticProvider, ServerCapabilities};
use async_language_server::server::options::{ConfigurationKey, WorkspaceDiagnostics};
use async_language_server::server::settings::SettingsValue;
use async_language_server::server::store::{DocumentOrigin, DocumentStore};
use async_language_server::server::ServerOptions;
use async_language_server::workspace::diagnostics::{
    ClientCapabilities, ConfigurationStep, DiagnosticWorkspaceClientCapabilities,
    DidChangeConfigurationClientCapabilities, EnabledChange, WorkspaceClientCapabilities,
};
use async_language_server::workspace::handlers::{
    apply_enabled, configuration_registration, configuration_response, did_change_configuration,
    disabled_reports, workspace_diagnostics_answer, WorkspaceDiagnosticsAnswer,
};
use async_language_server::workspace::WorkspaceDiagnosticsState;

type Store = DocumentStore<String, ()>;

fn configurable(client_refresh: bool) -> WorkspaceDiagnosticsState {
    let options = ServerOptions::default().with_workspace_diagnostics(WorkspaceDiagnostics::from(
        WorkspaceDiagnostics::setting(ConfigurationKey::new("test")),
    ));
    let mut state = WorkspaceDiagnosticsState::new(&options);
    state.configure(
        &ServerCapabilities {
            diagnostic_provider: Some(DiagnosticProvider::Options { workspace_diagnostics: true }),
            ..ServerCapabilities::default()
        },
        &ClientCapabilities {
            workspace: Some(WorkspaceClientCapabilities {
                configuration: Some(true),
                did_change_configuration: Some(DidChangeConfigurationClientCapabilities {
                    dynamic_registration: Some(true),
                }),
                diagnostic: Some(DiagnosticWorkspaceClientCapabilities {
                    refresh_support: Some(client_refresh),
                }),
            }),
        },
    );
    state
}

fn store_with_workspace_and_open() -> Store {
    let mut store = Store::new();
    store.insert_document("file:///ws/disk".to_string(), "d".to_string(), 0, DocumentOrigin::Workspace);
    store.insert_document("file:///ws/open".to_string(), "o".to_string(), 4, DocumentOrigin::Open);
    store
}

#[test]
fn configurable_workspace_diagnostics_can_be_toggled() {
    let mut state = configurable(true);
    let mut store = store_with_workspace_and_open();

    assert_eq!(
        apply_enabled(&mut state, &mut store, false),
        EnabledChange { changed: true, refresh: true },
    );
    assert!(!state.enabled());
    assert!(store.document("file:///ws/disk").is_none(), "turning off drops workspace documents");
    assert!(store.document("file:///ws/open").is_some(), "open documents stay");

    assert_eq!(
        apply_enabled(&mut state, &mut store, true),
        EnabledChange { changed: true, refresh: true },
    );
    assert!(state.enabled());
    assert_eq!(
        apply_enabled(&mut state, &mut store, true),
        EnabledChange { changed: false, refresh: false },
    );
}

#[test]
fn refresh_fires_only_on_change_and_only_when_supported() {
    let mut state = configurable(false);
    let mut store = Store::new();
    assert_eq!(
        apply_enabled(&mut state, &mut store, false),
        EnabledChange { changed: true, refresh: false },
        "a client without refresh support is not asked",
    );
}

#[test]
fn configuration_replies_drop_workspace_documents_only_if_current() {
    let mut state = configurable(true);
    let mut store = store_with_workspace_and_open();
    let generation = state.request_configuration().expect("the client can be asked");
    let off = SettingsValue::Bool(false);

    assert_eq!(configuration_response(&mut state, &mut store, generation + 1, Some(&off)), None);
    assert!(store.document("file:///ws/disk").is_some());

    assert_eq!(
        configuration_response(&mut state, &mut store, generation, Some(&off)),
        Some(EnabledChange { changed: true, refresh: true }),
    );
    assert!(store.document("file:///ws/disk").is_none());
}

#[test]
fn did_change_configuration_applies_the_carried_setting() {
    let mut state = configurable(true);
    let mut store = store_with_workspace_and_open();
    let settings = SettingsValue::Object(vec![("test".to_string(), SettingsValue::Bool(false))]);
    assert_eq!(
        did_change_configuration(&mut state, &mut store, &settings),
        ConfigurationStep::Applied(EnabledChange { changed: true, refresh: true }),
    );
    assert!(store.document("file:///ws/disk").is_none());
    let step = did_change_configuration(&mut state, &mut store, &SettingsValue::Other);
    assert_eq!(step, ConfigurationStep::Request { generation: state.current_generation() });
}

#[test]
fn workspace_diagnostics_answers_follow_the_state() {
    let mut state = configurable(true);
    let mut store = Store::new();
    assert_eq!(workspace_diagnostics_answer(&state), WorkspaceDiagnosticsAnswer::Run);
    apply_enabled(&mut state, &mut store, false);
    assert_eq!(workspace_diagnostics_answer(&state), WorkspaceDiagnosticsAnswer::Disabled);

    let disabled = WorkspaceDiagnosticsState::new(
        &ServerOptions::default().with_workspace_diagnostics(WorkspaceDiagnostics::disabled()),
    );
    assert_eq!(workspace_diagnostics_answer(&disabled), WorkspaceDiagnosticsAnswer::Unsupported);
}

#[test]
fn workspace_diagnostics_report_unopened_documents_without_versions() {
    let store = store_with_workspace_and_open();
    let previous = vec![
        "file:///ws/open".to_string(),
        "file:///ws/disk".to_string(),
        "file:///ws/gone".to_string(),
    ];
    assert_eq!(
        disabled_reports(&store, previous),
        vec![
            ("file:///ws/open".to_string(), Some(4)),
            ("file:///ws/disk".to_string(), None),
            ("file:///ws/gone".to_string(), None),
        ],
    );
}

#[test]
fn initialized_registers_did_change_configuration_when_supported() {
    let state = configurable(true);
    assert_eq!(configuration_registration(&state).as_deref(), Some("test"));
    let plain = WorkspaceDiagnosticsState::new(&ServerOptions::default());
    assert_eq!(configuration_registration(&plain), None);
}
